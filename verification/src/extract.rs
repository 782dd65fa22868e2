//! Metadata extraction: a single forward pass over the lines of a captured
//! artifact, driven by marker substrings, with a one-slot buffer for the
//! line preceding the publish-time marker and an explicit flag for the line
//! following the owner marker.
//!
//! A matched line that lacks the expected quote-delimited token degrades to
//! an empty field instead of failing.

use vstd::prelude::*;
use vstd::string::StringExecFns;
use crate::model::{Item, ItemModel};
use crate::text::{
    basename, basename_spec, contains_seq, contains_str, nth_token, split_on, trim_spec, trim_str,
};

verus! {

/// Marker that carries the description.
pub open spec fn desc_marker() -> Seq<char> {
    "property=\"og:description\""@
}

/// Marker that carries the author.
pub open spec fn author_marker() -> Seq<char> {
    "property=\"og:article:author\""@
}

/// Marker that carries the title.
pub open spec fn title_marker() -> Seq<char> {
    "property=\"og:title\""@
}

/// Marker announcing that the next line names the owning account.
pub open spec fn owner_marker() -> Seq<char> {
    "js_name"@
}

/// Marker whose preceding line carries the publish date.
pub open spec fn date_marker() -> Seq<char> {
    "getElementById(\"publish_time\")"@
}

/// The `n`th single-quote-delimited token of `line`, trimmed; empty when the
/// line has fewer tokens.
pub open spec fn field_token(line: Seq<char>, n: int) -> Seq<char> {
    if n < split_on(line, '"').len() {
        trim_spec(split_on(line, '"')[n])
    } else {
        Seq::<char>::empty()
    }
}

/// The scanner state as mathematical values.
#[verifier::ext_equal]
pub struct ScanModel {
    pub owner: Seq<char>,
    pub author: Seq<char>,
    pub title: Seq<char>,
    pub description: Option<Seq<char>>,
    pub date: Option<Seq<char>>,
    pub expect_owner: bool,
    pub prev: Seq<char>,
}

/// The scanner state: the fields collected so far, the flag set by the owner
/// marker, and the one-slot buffer holding the previous unconsumed line.
pub struct ScanState {
    pub owner: String,
    pub author: String,
    pub title: String,
    pub description: Option<String>,
    pub date: Option<String>,
    pub expect_owner: bool,
    pub prev: String,
}

impl View for ScanState {
    type V = ScanModel;

    open spec fn view(&self) -> ScanModel {
        ScanModel {
            owner: self.owner@,
            author: self.author@,
            title: self.title@,
            description: match self.description {
                Some(ref d) => Some(d@),
                None => None,
            },
            date: match self.date {
                Some(ref d) => Some(d@),
                None => None,
            },
            expect_owner: self.expect_owner,
            prev: self.prev@,
        }
    }
}

/// The scanner state before any line is read.
pub open spec fn initial_scan() -> ScanModel {
    ScanModel {
        owner: Seq::<char>::empty(),
        author: Seq::<char>::empty(),
        title: Seq::<char>::empty(),
        description: None,
        date: None,
        expect_owner: false,
        prev: Seq::<char>::empty(),
    }
}

/// One step of the scanner. The branches are tried in order and the first
/// match wins; a line consumed by a match never refreshes the one-slot
/// buffer, so the buffer holds the most recent unconsumed line.
pub open spec fn scan_step(st: ScanModel, line: Seq<char>) -> ScanModel {
    if contains_seq(line, desc_marker()) {
        ScanModel { description: Some(field_token(line, 3)), ..st }
    } else if contains_seq(line, author_marker()) {
        ScanModel { author: field_token(line, 3), ..st }
    } else if contains_seq(line, title_marker()) {
        ScanModel { title: field_token(line, 3), ..st }
    } else if contains_seq(line, owner_marker()) {
        ScanModel { expect_owner: true, ..st }
    } else if st.expect_owner {
        ScanModel { owner: trim_spec(split_on(line, '<')[0]), expect_owner: false, ..st }
    } else if contains_seq(line, date_marker()) {
        ScanModel { date: Some(field_token(st.prev, 5)), prev: line, ..st }
    } else {
        ScanModel { prev: line, ..st }
    }
}

/// The scanner folded over a sequence of lines.
pub open spec fn scan_lines(st: ScanModel, lines: Seq<Seq<char>>) -> ScanModel
    decreases lines.len(),
{
    if lines.len() == 0 {
        st
    } else {
        scan_lines(scan_step(st, lines[0]), lines.drop_first())
    }
}

/// The record extracted from an artifact's lines. Its path is the filename
/// component of `artifact`, the path the capture step wrote: the record
/// carries the generated name itself, never a recomputed one.
pub open spec fn extract_model(lines: Seq<Seq<char>>, artifact: Seq<char>) -> ItemModel {
    let st = scan_lines(initial_scan(), lines);
    ItemModel {
        owner: st.owner,
        author: st.author,
        title: st.title,
        description: st.description,
        date: st.date,
        path: basename_spec(artifact),
    }
}

proof fn lemma_scan_lines_push(st: ScanModel, lines: Seq<Seq<char>>, line: Seq<char>)
    ensures
        scan_lines(st, lines.push(line)) == scan_step(scan_lines(st, lines), line),
    decreases lines.len(),
{
    let snoc = lines.push(line);
    assert(snoc.len() == lines.len() + 1);
    if lines.len() == 0 {
        assert(snoc[0] == line);
        assert(snoc.drop_first() =~= Seq::<Seq<char>>::empty());
        assert(scan_lines(st, snoc) == scan_lines(scan_step(st, line), snoc.drop_first()));
        assert(scan_lines(scan_step(st, line), snoc.drop_first()) == scan_step(st, line));
        assert(scan_lines(st, lines) == st);
    } else {
        lemma_scan_lines_push(scan_step(st, lines[0]), lines.drop_first(), line);
        assert(snoc.drop_first() =~= lines.drop_first().push(line));
        assert(snoc[0] == lines[0]);
        assert(scan_lines(st, snoc) == scan_lines(scan_step(st, lines[0]), snoc.drop_first()));
        assert(scan_lines(st, lines) == scan_lines(scan_step(st, lines[0]), lines.drop_first()));
    }
}

/// The trimmed `n`th quote-delimited token of `line`, or the empty string
/// when the line has fewer tokens.
fn field_at(line: &str, n: usize) -> (r: String)
    ensures
        r@ == field_token(line@, n as int),
{
    match nth_token(line, '"', n) {
        Some(t) => trim_str(t.as_str()),
        None => String::new(),
    }
}

impl ScanState {
    /// The state before any line is read.
    pub fn new() -> (st: ScanState)
        ensures
            st@ == initial_scan(),
    {
        ScanState {
            owner: String::new(),
            author: String::new(),
            title: String::new(),
            description: None,
            date: None,
            expect_owner: false,
            prev: String::new(),
        }
    }

    /// Feed one line to the scanner.
    pub fn step(&mut self, line: &String)
        ensures
            final(self)@ == scan_step(old(self)@, line@),
    {
        if contains_str(line.as_str(), "property=\"og:description\"") {
            self.description = Some(field_at(line.as_str(), 3));
        } else if contains_str(line.as_str(), "property=\"og:article:author\"") {
            self.author = field_at(line.as_str(), 3);
        } else if contains_str(line.as_str(), "property=\"og:title\"") {
            self.title = field_at(line.as_str(), 3);
        } else if contains_str(line.as_str(), "js_name") {
            self.expect_owner = true;
        } else if self.expect_owner {
            let head = match nth_token(line.as_str(), '<', 0) {
                Some(t) => t,
                None => {
                    proof {
                        crate::text::lemma_split_nonempty(line@, '<');
                    }
                    String::new()
                },
            };
            self.owner = trim_str(head.as_str());
            self.expect_owner = false;
        } else if contains_str(line.as_str(), "getElementById(\"publish_time\")") {
            self.date = Some(field_at(self.prev.as_str(), 5));
            self.prev = line.clone();
        } else {
            self.prev = line.clone();
        }
    }
}

/// Derive a record from the lines of a captured artifact. `artifact` is the
/// path the capture step wrote; the record keeps its filename component.
pub fn extract_item(lines: &Vec<String>, artifact: &String) -> (item: Item)
    ensures
        item@ == extract_model(lines.deep_view(), artifact@),
{
    let mut st = ScanState::new();
    let mut i: usize = 0;
    while i < lines.len()
        invariant
            i <= lines.len(),
            st@ == scan_lines(initial_scan(), lines.deep_view().take(i as int)),
        decreases lines.len() - i,
    {
        proof {
            lemma_scan_lines_push(
                initial_scan(),
                lines.deep_view().take(i as int),
                lines.deep_view()[i as int],
            );
            assert(lines.deep_view().take(i as int).push(lines.deep_view()[i as int])
                =~= lines.deep_view().take(i + 1));
        }
        st.step(&lines[i]);
        i = i + 1;
    }
    proof {
        assert(lines.deep_view().take(lines@.len() as int) =~= lines.deep_view());
    }
    Item {
        owner: st.owner,
        author: st.author,
        title: st.title,
        description: st.description,
        date: st.date,
        path: basename(artifact.as_str()),
    }
}

} // verus!
