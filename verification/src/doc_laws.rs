//! What holds of the fields of documents.
use vstd::prelude::*;

use crate::doc;
use crate::doc::DocModel;

verus! {

/// A field of a table is the first entry with its key. What is not a table has no
/// fields.
pub proof fn field_is_first_entry(
    before: Seq<(Seq<char>, DocModel)>,
    key: Seq<char>,
    value: DocModel,
    behind: Seq<(Seq<char>, DocModel)>,
    d: DocModel,
)
    requires
        forall|i: int| 0 <= i < before.len() ==> (#[trigger] before[i]).0 != key,
        !(d is Table),
    ensures
        doc::get(DocModel::Table(before + seq![(key, value)] + behind), key) == Some(value),
        doc::get(DocModel::Table(before), key) is None,
        doc::get(d, key) is None,
    decreases before.len(),
{
    let all = before + seq![(key, value)] + behind;
    if before.len() == 0 {
        assert(all[0] == (key, value));
    } else {
        let rest = before.skip(1);
        assert(before[0].0 != key);
        assert forall|i: int| 0 <= i < rest.len() implies (#[trigger] rest[i]).0 != key by {
            assert(rest[i] == before[i + 1]);
        }
        field_is_first_entry(rest, key, value, behind, d);
        assert(all[0] == before[0]);
        assert(all.skip(1) =~= rest + seq![(key, value)] + behind);
    }
}

/// A text, a list and a table are each read as what they are and as nothing else, and
/// only `true` is true.
pub proof fn values_are_of_one_kind(
    s: Seq<char>,
    items: Seq<DocModel>,
    entries: Seq<(Seq<char>, DocModel)>,
    b: bool,
)
    ensures
        doc::as_text(Some(DocModel::Text(s))) == Some(s),
        doc::as_text(Some(DocModel::List(items))) is None,
        doc::as_text(Some(DocModel::Bool(b))) is None,
        doc::as_text(Some(DocModel::Scalar)) is None,
        doc::as_text(None) is None,
        doc::as_list(Some(DocModel::List(items))) == Some(items),
        doc::as_list(Some(DocModel::Table(entries))) is None,
        doc::as_list(Some(DocModel::Text(s))) is None,
        doc::as_list(None) is None,
        doc::as_table(Some(DocModel::Table(entries))) == Some(entries),
        doc::as_table(Some(DocModel::List(items))) is None,
        doc::as_table(Some(DocModel::Text(s))) is None,
        doc::as_table(None) is None,
        doc::is_true(Some(DocModel::Bool(b))) == b,
        !doc::is_true(Some(DocModel::Text(s))),
        !doc::is_true(Some(DocModel::Null)),
        !doc::is_true(None),
{
}

} // verus!
