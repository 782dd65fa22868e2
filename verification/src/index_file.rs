//! Serialization of records and the append-only index.
//!
//! The index is a single text file that grows monotonically: every record is
//! serialized as one fixed-format block and appended; existing content is
//! never read back, shortened, or rewritten.

use vstd::prelude::*;
use vstd::string::StringExecFns;
use crate::model::{Item, ItemModel};

verus! {

/// An absent optional field serializes as empty text.
pub open spec fn opt_text(o: Option<Seq<char>>) -> Seq<char> {
    match o {
        Some(s) => s,
        None => Seq::<char>::empty(),
    }
}

/// The exact text block one record contributes to the index: a leading
/// newline, then one `key: 'value'` line per field, every key present.
pub open spec fn record_block(m: ItemModel) -> Seq<char> {
    "\n- owner: '"@ + m.owner + "'\n  author: '"@ + m.author + "'\n  title: '"@ + m.title
        + "'\n  description: '"@ + opt_text(m.description) + "'\n  date: '"@ + opt_text(m.date)
        + "'\n  path: '"@ + m.path + "'"@
}

/// Serialize one record as its index block.
pub fn render_item(item: &Item) -> (r: String)
    ensures
        r@ == record_block(item@),
{
    let mut out = String::new();
    out.append("\n- owner: '");
    out.append(item.owner.as_str());
    out.append("'\n  author: '");
    out.append(item.author.as_str());
    out.append("'\n  title: '");
    out.append(item.title.as_str());
    out.append("'\n  description: '");
    match item.description {
        Some(ref d) => out.append(d.as_str()),
        None => (),
    }
    out.append("'\n  date: '");
    match item.date {
        Some(ref d) => out.append(d.as_str()),
        None => (),
    }
    out.append("'\n  path: '");
    out.append(item.path.as_str());
    out.append("'");
    proof {
        assert(out@ =~= record_block(item@));
    }
    out
}

/// The index content held as text. The real index lives in a file that must
/// pre-exist; this type carries its content through a run and offers exactly
/// one operation, appending one record's block.
pub struct ArchiveIndex {
    pub content: String,
}

impl ArchiveIndex {
    /// Take over index content as found at startup.
    pub fn from_content(content: String) -> (idx: ArchiveIndex)
        ensures
            idx.content@ == content@,
    {
        ArchiveIndex { content }
    }

    /// Append one record's block. Nothing already present moves or changes.
    pub fn append_record(&mut self, item: &Item)
        ensures
            final(self).content@ == old(self).content@ + record_block(item@),
    {
        let block = render_item(item);
        self.content.append(block.as_str());
    }
}

/// Appending a block to the index never shortens it and never changes a byte
/// already present, whatever the block holds: the index is append-only.
pub proof fn lemma_append_only(pre: Seq<char>, block: Seq<char>)
    ensures
        (pre + block).len() >= pre.len(),
        forall|i: int| 0 <= i < pre.len() ==> (pre + block)[i] == pre[i],
{
}

} // verus!
