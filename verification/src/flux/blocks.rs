//! The blocks of an annotated CSV payload and their records.

use vstd::prelude::*;

use crate::text::chars_of;

verus! {

/// The records that the `csv` crate reads from a text without a header row
/// and without comments, in order: the fields of each record, or `None` for
/// a record that it reports as an error.
pub uninterp spec fn csv_records(text: Seq<char>) -> Seq<Option<Seq<Seq<char>>>>;

/// Reads with a `csv::Reader` built by `csv::ReaderBuilder` with
/// `comment(None)` and `has_headers(false)`, and collects what its
/// `records()` yields until it ends, each record as the list of its fields.
/// What it yields depends on the text alone.
#[verifier::external_body]
pub(crate) fn read_records(text: &str) -> (records: Vec<Result<Vec<String>, csv::Error>>)
    ensures
        records@.len() == csv_records(text@).len(),
        forall|i: int|
            0 <= i < records@.len() ==> match #[trigger] records@[i] {
                Ok(fields) => csv_records(text@)[i] == Some(fields.deep_view()),
                Err(_) => csv_records(text@)[i] is None,
            },
{
    csv::ReaderBuilder::new()
        .comment(None)
        .has_headers(false)
        .from_reader(text.as_bytes())
        .records()
        .map(|read| read.map(|record| record.iter().map(|field| field.to_owned()).collect()))
        .collect()
}

/// What separates the blocks of a payload: an empty line, with line ends
/// of carriage return and line feed.
pub open spec fn separator() -> Seq<char> {
    seq!['\r', '\n', '\r', '\n']
}

/// Whether the separator stands at `place` in `text`.
pub open spec fn separator_at(text: Seq<char>, place: int) -> bool {
    &&& 0 <= place
    &&& place + 4 <= text.len()
    &&& text[place] == '\r'
    &&& text[place + 1] == '\n'
    &&& text[place + 2] == '\r'
    &&& text[place + 3] == '\n'
}

/// The first place of `text` where the separator stands; the length of the
/// text where it stands nowhere.
pub open spec fn first_separator(text: Seq<char>) -> nat
    decreases text.len(),
{
    if text.len() < 4 {
        text.len()
    } else if separator_at(text, 0) {
        0
    } else {
        1 + first_separator(text.drop_first())
    }
}

/// The blocks of a payload: the texts between the separators, up to the
/// first that is empty.
pub open spec fn blocks_of(text: Seq<char>) -> Seq<Seq<char>>
    decreases text.len(),
{
    let n = first_separator(text);
    if n == 0 || text.len() == 0 {
        Seq::empty()
    } else if n + 4 > text.len() {
        seq![text]
    } else {
        seq![text.take(n as int)] + blocks_of(text.skip(n as int + 4))
    }
}

/// The first separator stands within the text or the text has none; no
/// separator stands before it.
pub proof fn lemma_first_separator(text: Seq<char>)
    ensures
        first_separator(text) <= text.len(),
        forall|k: int| 0 <= k < first_separator(text) ==> !separator_at(text, k),
        first_separator(text) < text.len() ==> separator_at(text, first_separator(text) as int),
    decreases text.len(),
{
    if text.len() >= 4 && !separator_at(text, 0) {
        let rest = text.drop_first();
        lemma_first_separator(rest);
        assert forall|k: int| 0 <= k < first_separator(text) implies !separator_at(text, k) by {
            if k > 0 && separator_at(text, k) {
                assert(separator_at(rest, k - 1));
            }
        }
        let found = first_separator(rest) as int;
        if found < rest.len() {
            assert(separator_at(rest, found));
            assert(separator_at(text, found + 1));
        }
    }
}

/// A place that no separator precedes, and where a separator stands or the
/// text ends, is the place of the first separator.
pub proof fn lemma_first_separator_is(text: Seq<char>, place: int)
    requires
        0 <= place <= text.len(),
        forall|k: int| 0 <= k < place ==> !separator_at(text, k),
        place < text.len() ==> separator_at(text, place),
    ensures
        first_separator(text) == place,
{
    lemma_first_separator(text);
}

/// Splits a payload into its blocks.
pub fn split_blocks(input: &str) -> (blocks: Vec<String>)
    ensures
        blocks.deep_view() == blocks_of(input@),
{
    let text = chars_of(input);
    let ghost all = text@;
    let mut blocks: Vec<String> = Vec::new();
    let mut block = String::new();
    let mut start: usize = 0;
    let mut i: usize = 0;
    proof {
        assert(all.skip(0) =~= all);
        assert(blocks.deep_view() =~= Seq::<Seq<char>>::empty());
        assert(Seq::<Seq<char>>::empty() + blocks_of(all) =~= blocks_of(all));
    }
    while i < text.len()
        invariant
            start <= i <= text@.len(),
            all == text@,
            all == input@,
            block@ == all.subrange(start as int, i as int),
            forall|k: int| start <= k < i ==> !separator_at(all, k),
            blocks.deep_view() + blocks_of(all.skip(start as int)) == blocks_of(all),
        decreases text@.len() - i,
    {
        let here = text.len() - i >= 4 && text[i] == '\r' && text[i + 1] == '\n' && text[i + 2]
            == '\r' && text[i + 3] == '\n';
        if here {
            let ghost rest = all.skip(start as int);
            proof {
                assert forall|k: int| 0 <= k < i - start implies !separator_at(rest, k) by {
                    if separator_at(rest, k) {
                        assert(separator_at(all, start + k));
                    }
                }
                assert(separator_at(rest, i - start));
                lemma_first_separator_is(rest, i - start);
                assert(rest.take(i - start) =~= block@);
                assert(rest.skip(i - start + 4) =~= all.skip(i + 4));
            }
            if i == start {
                proof {
                    assert(blocks_of(rest) =~= Seq::<Seq<char>>::empty());
                    assert(blocks.deep_view() + Seq::<Seq<char>>::empty() =~= blocks.deep_view());
                }
                return blocks;
            }
            let ghost before = blocks.deep_view();
            blocks.push(block);
            proof {
                assert(blocks.deep_view() =~= before.push(rest.take(i - start)));
                assert(before + (seq![rest.take(i - start)] + blocks_of(all.skip(i + 4)))
                    =~= blocks.deep_view() + blocks_of(all.skip(i + 4)));
            }
            block = String::new();
            i += 4;
            start = i;
            proof {
                assert(block@ =~= all.subrange(start as int, i as int));
            }
        } else {
            crate::text::push_char(&mut block, text[i]);
            proof {
                assert(!separator_at(all, i as int));
                assert(block@ =~= all.subrange(start as int, i + 1));
            }
            i += 1;
        }
    }
    let ghost rest = all.skip(start as int);
    proof {
        assert forall|k: int| 0 <= k < rest.len() implies !separator_at(rest, k) by {
            if separator_at(rest, k) {
                assert(separator_at(all, start + k));
            }
        }
        lemma_first_separator_is(rest, rest.len() as int);
        assert(rest =~= block@);
    }
    if start < text.len() {
        let ghost before = blocks.deep_view();
        blocks.push(block);
        proof {
            assert(blocks.deep_view() =~= before.push(rest));
            assert(before + seq![rest] =~= blocks.deep_view());
        }
    } else {
        proof {
            assert(blocks_of(rest) =~= Seq::<Seq<char>>::empty());
            assert(blocks.deep_view() + Seq::<Seq<char>>::empty() =~= blocks.deep_view());
        }
    }
    blocks
}

} // verus!
