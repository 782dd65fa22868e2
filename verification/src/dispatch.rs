//! Message classification and per-URL processing decisions.
//!
//! The dispatcher's decisions are pure functions: authorize the sender,
//! classify the message as a control command or a URL-bearing message, and
//! turn each capture attempt's outcome into a reply and, on success, a
//! record. The surrounding loop performs the waits, subprocess runs and
//! sends, and feeds their outcomes back in.

use vstd::prelude::*;
use vstd::string::{StrSliceExecFns, StringExecFns};
use crate::extract::{extract_item, extract_model};
use crate::model::{Item, ItemModel};
use crate::text::{lemma_split_nonempty, nth_token, split_on};

verus! {

/// An annotated span of a message's text.
#[derive(Clone, Copy)]
pub struct Span {
    pub is_url: bool,
    pub offset: usize,
    pub length: usize,
}

/// One inbound text message: the sender's identity, the text body, and its
/// annotated spans.
pub struct TextMessage {
    pub sender: i64,
    pub text: String,
    pub spans: Vec<Span>,
}

/// What a message means, as mathematical values.
#[verifier::ext_equal]
pub enum DecisionModel {
    /// Unauthorized sender: no reply, no further processing.
    Ignored,
    /// The update command: run the site builder, then acknowledge.
    RunSiteBuild,
    /// Any other command: reply that the command is invalid.
    InvalidCommand,
    /// Not a command: capture each URL span's text, in order.
    CaptureUrls(Seq<Seq<char>>),
}

/// What a message means.
pub enum Classification {
    Ignored,
    RunSiteBuild,
    InvalidCommand,
    CaptureUrls(Vec<String>),
}

impl View for Classification {
    type V = DecisionModel;

    open spec fn view(&self) -> DecisionModel {
        match self {
            Classification::Ignored => DecisionModel::Ignored,
            Classification::RunSiteBuild => DecisionModel::RunSiteBuild,
            Classification::InvalidCommand => DecisionModel::InvalidCommand,
            Classification::CaptureUrls(urls) => DecisionModel::CaptureUrls(urls.deep_view()),
        }
    }
}

/// A text beginning with the command prefix is a command.
pub open spec fn is_command(text: Seq<char>) -> bool {
    text.len() > 0 && text[0] == '/'
}

/// The command name: the first whitespace-delimited token.
pub open spec fn command_name(text: Seq<char>) -> Seq<char> {
    split_on(text, ' ')[0]
}

/// The one recognized command.
pub open spec fn update_command() -> Seq<char> {
    "/update"@
}

/// Every URL span must lie within the text it annotates.
pub open spec fn spans_fit(text: Seq<char>, spans: Seq<Span>) -> bool {
    forall|i: int|
        0 <= i < spans.len() && spans[i].is_url ==> spans[i].offset + spans[i].length <= text.len()
}

/// The text of each URL span, in span order.
pub open spec fn url_spans(text: Seq<char>, spans: Seq<Span>) -> Seq<Seq<char>>
    decreases spans.len(),
{
    if spans.len() == 0 {
        Seq::<Seq<char>>::empty()
    } else {
        let rest = url_spans(text, spans.drop_first());
        if spans[0].is_url {
            seq![text.subrange(spans[0].offset as int, spans[0].offset + spans[0].length)] + rest
        } else {
            rest
        }
    }
}

/// The dispatcher's decision for one message: unauthorized senders are
/// ignored; a command routes to the site builder exactly when its name is
/// the update command; any other text yields its URL spans for capture.
pub open spec fn classify_spec(
    admins: Seq<i64>,
    sender: i64,
    text: Seq<char>,
    spans: Seq<Span>,
) -> DecisionModel {
    if !admins.contains(sender) {
        DecisionModel::Ignored
    } else if is_command(text) {
        if command_name(text) == update_command() {
            DecisionModel::RunSiteBuild
        } else {
            DecisionModel::InvalidCommand
        }
    } else {
        DecisionModel::CaptureUrls(url_spans(text, spans))
    }
}

proof fn lemma_url_spans_push(text: Seq<char>, spans: Seq<Span>, sp: Span)
    ensures
        sp.is_url ==> url_spans(text, spans.push(sp)) == url_spans(text, spans).push(
            text.subrange(sp.offset as int, sp.offset + sp.length),
        ),
        !sp.is_url ==> url_spans(text, spans.push(sp)) == url_spans(text, spans),
    decreases spans.len(),
{
    let snoc = spans.push(sp);
    assert(snoc.len() == spans.len() + 1);
    if spans.len() == 0 {
        assert(snoc[0] == sp);
        assert(snoc.drop_first() =~= Seq::<Span>::empty());
        assert(url_spans(text, snoc.drop_first()) == Seq::<Seq<char>>::empty());
        if sp.is_url {
            assert(url_spans(text, snoc) == seq![
                text.subrange(sp.offset as int, sp.offset + sp.length),
            ] + Seq::<Seq<char>>::empty());
            assert(url_spans(text, snoc) =~~= url_spans(text, spans).push(
                text.subrange(sp.offset as int, sp.offset + sp.length),
            ));
        }
    } else {
        lemma_url_spans_push(text, spans.drop_first(), sp);
        assert(snoc.drop_first() =~= spans.drop_first().push(sp));
        assert(snoc[0] == spans[0]);
        if sp.is_url {
            if spans[0].is_url {
                assert(url_spans(text, snoc) =~~= url_spans(text, spans).push(
                    text.subrange(sp.offset as int, sp.offset + sp.length),
                ));
            }
        } else {
            if spans[0].is_url {
                assert(url_spans(text, snoc) =~~= url_spans(text, spans));
            }
        }
    }
}

/// Whether `sender` is in the authorization set.
pub fn is_admin(admins: &Vec<i64>, sender: i64) -> (b: bool)
    ensures
        b == admins@.contains(sender),
{
    let mut i: usize = 0;
    while i < admins.len()
        invariant
            i <= admins@.len(),
            forall|k: int| 0 <= k < i ==> admins@[k] != sender,
        decreases admins@.len() - i,
    {
        if admins[i] == sender {
            return true;
        }
        i = i + 1;
    }
    false
}

/// Classify one message: authorize the sender, then route it as a command or
/// as a URL-bearing message.
pub fn classify(admins: &Vec<i64>, msg: &TextMessage) -> (c: Classification)
    requires
        spans_fit(msg.text@, msg.spans@),
    ensures
        c@ == classify_spec(admins@, msg.sender, msg.text@, msg.spans@),
{
    if !is_admin(admins, msg.sender) {
        return Classification::Ignored;
    }
    let text = msg.text.as_str();
    let n = text.unicode_len();
    if n > 0 && text.get_char(0) == '/' {
        let cmd = match nth_token(text, ' ', 0) {
            Some(t) => t,
            None => {
                proof {
                    lemma_split_nonempty(text@, ' ');
                }
                return Classification::InvalidCommand;
            },
        };
        let target = String::from_str("/update");
        if cmd.eq(&target) {
            Classification::RunSiteBuild
        } else {
            Classification::InvalidCommand
        }
    } else {
        let mut urls: Vec<String> = Vec::new();
        let mut i: usize = 0;
        while i < msg.spans.len()
            invariant
                i <= msg.spans@.len(),
                spans_fit(msg.text@, msg.spans@),
                n == msg.text@.len(),
                urls.deep_view() == url_spans(msg.text@, msg.spans@.take(i as int)),
            decreases msg.spans@.len() - i,
        {
            let sp = msg.spans[i];
            proof {
                lemma_url_spans_push(msg.text@, msg.spans@.take(i as int), sp);
                assert(msg.spans@.take(i as int).push(sp) =~= msg.spans@.take(i + 1));
            }
            if sp.is_url {
                let u = msg.text.as_str().substring_char(sp.offset, sp.offset + sp.length);
                urls.push(u.to_owned());
                proof {
                    assert(urls.deep_view() =~~= url_spans(msg.text@, msg.spans@.take(i + 1)));
                }
            }
            i = i + 1;
        }
        proof {
            assert(msg.spans@.take(msg.spans@.len() as int) =~= msg.spans@);
        }
        Classification::CaptureUrls(urls)
    }
}

/// What came back from one capture attempt, as mathematical values.
#[verifier::ext_equal]
pub enum EventModel {
    /// The capture tool could not be run; the detail describes the failure.
    SpawnFailed(Seq<char>),
    /// The capture tool wrote the artifact; these are its text lines.
    Captured(Seq<Seq<char>>),
}

/// What came back from one capture attempt.
pub enum CaptureEvent {
    SpawnFailed(String),
    Captured(Vec<String>),
}

impl View for CaptureEvent {
    type V = EventModel;

    open spec fn view(&self) -> EventModel {
        match self {
            CaptureEvent::SpawnFailed(d) => EventModel::SpawnFailed(d@),
            CaptureEvent::Captured(lines) => EventModel::Captured(lines.deep_view()),
        }
    }
}

/// The result of processing one URL, as mathematical values.
#[verifier::ext_equal]
pub struct OutcomeModel {
    pub reply: Seq<char>,
    pub record: Option<ItemModel>,
}

/// The result of processing one URL: the reply owed to the requester and,
/// on success, the record owed to the index.
pub struct UrlOutcome {
    pub reply: String,
    pub record: Option<Item>,
}

impl View for UrlOutcome {
    type V = OutcomeModel;

    open spec fn view(&self) -> OutcomeModel {
        OutcomeModel {
            reply: self.reply@,
            record: match self.record {
                Some(ref it) => Some(it@),
                None => None,
            },
        }
    }
}

/// The error reply for a capture that could not be run.
pub open spec fn failure_reply(url: Seq<char>, detail: Seq<char>) -> Seq<char> {
    "Internal error "@ + detail + " when trying to archive "@ + url + "."@
}

/// The acknowledgment for a successfully archived URL.
pub open spec fn success_reply() -> Seq<char> {
    "Url archived."@
}

/// The result owed for one URL: a failed capture yields exactly the error
/// reply naming the URL and no record; a successful capture yields exactly
/// the acknowledgment and the record extracted from the artifact.
pub open spec fn url_outcome_model(
    url: Seq<char>,
    artifact: Seq<char>,
    ev: EventModel,
) -> OutcomeModel {
    match ev {
        EventModel::SpawnFailed(d) => OutcomeModel { reply: failure_reply(url, d), record: None },
        EventModel::Captured(lines) => OutcomeModel {
            reply: success_reply(),
            record: Some(extract_model(lines, artifact)),
        },
    }
}

/// The error reply for `url` with the given failure detail.
pub fn failure_reply_text(url: &String, detail: &String) -> (r: String)
    ensures
        r@ == failure_reply(url@, detail@),
{
    let mut out = String::new();
    out.append("Internal error ");
    out.append(detail.as_str());
    out.append(" when trying to archive ");
    out.append(url.as_str());
    out.append(".");
    proof {
        assert(out@ =~= failure_reply(url@, detail@));
    }
    out
}

/// Turn one capture attempt's outcome into the reply and, on success, the
/// record extracted from the captured artifact. `artifact` is the
/// destination path the capture step was given for this URL.
pub fn handle_url_event(url: &String, artifact: &String, ev: &CaptureEvent) -> (out: UrlOutcome)
    ensures
        out@ == url_outcome_model(url@, artifact@, ev@),
{
    match ev {
        CaptureEvent::SpawnFailed(detail) => UrlOutcome {
            reply: failure_reply_text(url, detail),
            record: None,
        },
        CaptureEvent::Captured(lines) => UrlOutcome {
            reply: String::from_str("Url archived."),
            record: Some(extract_item(lines, artifact)),
        },
    }
}

/// The acknowledgment sent after the site builder was invoked.
pub fn updated_reply() -> (r: String)
    ensures
        r@ == "Page updated."@,
{
    String::from_str("Page updated.")
}

/// The reply sent for an unrecognized command.
pub fn invalid_reply() -> (r: String)
    ensures
        r@ == "Invalid command."@,
{
    String::from_str("Invalid command.")
}

/// The argument list for one capture invocation: the URL, silent mode, and
/// the destination path.
pub fn capture_args(url: &String, dest: &String) -> (args: Vec<String>)
    ensures
        args.deep_view() == seq![url@, "-s"@, "-o"@, dest@],
{
    let mut args: Vec<String> = Vec::new();
    args.push(url.clone());
    args.push(String::from_str("-s"));
    args.push(String::from_str("-o"));
    args.push(dest.clone());
    proof {
        assert(args.deep_view() =~~= seq![url@, "-s"@, "-o"@, dest@]);
    }
    args
}

/// The argument list for one site-builder invocation: the fixed source
/// directory and the destination derived from the output directory.
pub fn site_build_args(output_path: &String) -> (args: Vec<String>)
    ensures
        args.deep_view() == seq!["-s"@, "hugo"@, "-d"@, "../"@ + output_path@],
{
    let mut args: Vec<String> = Vec::new();
    args.push(String::from_str("-s"));
    args.push(String::from_str("hugo"));
    args.push(String::from_str("-d"));
    args.push(String::from_str("../").concat(output_path.as_str()));
    proof {
        assert(args.deep_view() =~~= seq!["-s"@, "hugo"@, "-d"@, "../"@ + output_path@]);
    }
    args
}

/// The full destination path of an artifact inside the output directory.
pub fn artifact_path(output_path: &String, name: &String) -> (p: String)
    ensures
        p@ == output_path@ + "/"@ + name@,
{
    let p = output_path.clone().concat("/");
    p.concat(name.as_str())
}

/// A sender outside the authorization set is silently ignored: the decision
/// carries no reply, no command, and no capture work, whatever the message
/// says.
pub proof fn lemma_unauthorized_silent(
    admins: Seq<i64>,
    sender: i64,
    text: Seq<char>,
    spans: Seq<Span>,
)
    requires
        !admins.contains(sender),
    ensures
        classify_spec(admins, sender, text, spans) == DecisionModel::Ignored,
{
}

/// Command routing: an authorized command runs the site builder exactly when
/// it is the update command, and otherwise yields the invalid-command reply
/// and no capture work.
pub proof fn lemma_command_routing(admins: Seq<i64>, sender: i64, text: Seq<char>, spans: Seq<Span>)
    requires
        admins.contains(sender),
        is_command(text),
    ensures
        command_name(text) == update_command() ==> classify_spec(admins, sender, text, spans)
            == DecisionModel::RunSiteBuild,
        command_name(text) != update_command() ==> classify_spec(admins, sender, text, spans)
            == DecisionModel::InvalidCommand,
{
}

/// In a message whose first URL fails to capture and whose second succeeds,
/// the outcomes owe exactly one error reply (for the first URL, naming it),
/// exactly one acknowledgment, and exactly one record — the one extracted
/// for the succeeding URL — and appending that single record leaves every
/// byte already in the index unchanged.
pub proof fn lemma_one_failure_one_success(
    url1: Seq<char>,
    art1: Seq<char>,
    detail: Seq<char>,
    url2: Seq<char>,
    art2: Seq<char>,
    lines: Seq<Seq<char>>,
    pre: Seq<char>,
)
    ensures
        url_outcome_model(url1, art1, EventModel::SpawnFailed(detail)).record is None,
        url_outcome_model(url1, art1, EventModel::SpawnFailed(detail)).reply == failure_reply(
            url1,
            detail,
        ),
        url_outcome_model(url2, art2, EventModel::Captured(lines)).record == Some(
            extract_model(lines, art2),
        ),
        url_outcome_model(url2, art2, EventModel::Captured(lines)).reply == success_reply(),
        (pre + crate::index_file::record_block(extract_model(lines, art2))).len() >= pre.len(),
        forall|i: int|
            0 <= i < pre.len() ==> (pre + crate::index_file::record_block(
                extract_model(lines, art2),
            ))[i] == pre[i],
{
}

} // verus!
