//! What holds of the rewrite across records, passes and files.

use vstd::prelude::*;

use crate::outside::{any_matches, escaped};
use crate::patterns::{annotated, annotated_line, escaped_all};
use crate::text::{lemma_pieces_nonempty, pieces, records_of};

verus! {

/// `s` holds no newline character.
pub open spec fn single_line(s: Seq<char>) -> bool {
    forall|i: int| 0 <= i < s.len() ==> s[i] != '\n'
}

/// A record as it reads after the rewrite: the marker first if some pattern
/// of `ps` matches it, then the record itself.
pub open spec fn marked(ps: Seq<Seq<char>>, marker: Seq<char>, line: Seq<char>) -> Seq<char> {
    (if any_matches(ps, line) {
        marker
    } else {
        Seq::empty()
    }) + line
}

/// Every record of `recs` as it reads after the rewrite.
pub open spec fn marked_all(ps: Seq<Seq<char>>, marker: Seq<char>, recs: Seq<Seq<char>>) -> Seq<
    Seq<char>,
> {
    recs.map_values(|r: Seq<char>| marked(ps, marker, r))
}

/// The records of all of `texts`, in order.
pub open spec fn all_records(texts: Seq<Seq<char>>) -> Seq<Seq<char>>
    decreases texts.len(),
{
    if texts.len() == 0 {
        Seq::empty()
    } else {
        all_records(texts.drop_last()) + records_of(texts.last())
    }
}

/// The live fragments after the texts `texts` have been rewritten in turn,
/// starting from `live`.
pub open spec fn fed(live: Seq<Seq<char>>, texts: Seq<Seq<char>>) -> Seq<Seq<char>>
    decreases texts.len(),
{
    if texts.len() == 0 {
        live
    } else {
        fed(live, texts.drop_last()) + escaped_all(records_of(texts.last()))
    }
}

proof fn lemma_pieces_extend(a: Seq<char>, x: Seq<char>)
    requires
        single_line(x),
    ensures
        pieces(a + x) == pieces(a).update(
            pieces(a).len() - 1,
            pieces(a).last() + x,
        ),
        pieces(a).len() >= 1,
    decreases x.len(),
{
    reveal_with_fuel(pieces, 2);
    if x.len() == 0 {
        assert(a + x =~= a);
        lemma_pieces_nonempty(a);
        assert(pieces(a).last() + x =~= pieces(a).last());
        assert(pieces(a).update(pieces(a).len() - 1, pieces(a).last()) =~= pieces(a));
    } else {
        let y = x.drop_last();
        lemma_pieces_extend(a, y);
        assert((a + x).drop_last() =~= a + y);
        assert((a + x).last() == x.last());
        assert(pieces(a).last() + x =~= (pieces(a).last() + y).push(x.last()));
        assert(pieces(a + x) =~= pieces(a).update(pieces(a).len() - 1, pieces(a).last() + x));
    }
    lemma_pieces_nonempty(a);
}

proof fn lemma_pieces_annotated(ps: Seq<Seq<char>>, marker: Seq<char>, recs: Seq<Seq<char>>)
    requires
        single_line(marker),
        forall|i: int| 0 <= i < recs.len() ==> single_line(#[trigger] recs[i]),
    ensures
        pieces(annotated(ps, marker, recs)) == marked_all(ps, marker, recs).push(Seq::empty()),
    decreases recs.len(),
{
    if recs.len() > 0 {
        let prev = recs.drop_last();
        let line = recs.last();
        lemma_pieces_annotated(ps, marker, prev);
        let t = annotated(ps, marker, prev);
        let m = marked(ps, marker, line);
        assert(single_line(line));
        assert(single_line(m));
        lemma_pieces_extend(t, m);
        assert(annotated_line(ps, marker, line) =~= m.push('\n'));
        let u = t + m;
        assert(annotated(ps, marker, recs) =~= u.push('\n'));
        assert(u.push('\n').drop_last() =~= u);
        assert(marked_all(ps, marker, recs) =~= marked_all(ps, marker, prev).push(m));
        assert(pieces(u) =~= marked_all(ps, marker, prev).push(m));
        assert(pieces(annotated(ps, marker, recs)) =~= marked_all(ps, marker, recs).push(
            Seq::empty(),
        ));
    } else {
        assert(marked_all(ps, marker, recs) =~= Seq::empty());
        assert(pieces(Seq::<char>::empty()) =~= seq![Seq::<char>::empty()]);
    }
}

proof fn lemma_pieces_single_line(t: Seq<char>)
    ensures
        forall|i: int| 0 <= i < pieces(t).len() ==> single_line(#[trigger] pieces(t)[i]),
    decreases t.len(),
{
    if t.len() > 0 {
        lemma_pieces_single_line(t.drop_last());
        lemma_pieces_nonempty(t.drop_last());
    }
}

/// No record holds a newline.
proof fn lemma_records_single_line(t: Seq<char>)
    ensures
        forall|i: int| 0 <= i < records_of(t).len() ==> single_line(#[trigger] records_of(t)[i]),
{
    lemma_pieces_single_line(t);
    if t.len() > 0 && t.last() == '\n' {
        assert forall|i: int| 0 <= i < records_of(t).len() implies single_line(
            #[trigger] records_of(t)[i],
        ) by {
            assert(records_of(t)[i] == pieces(t)[i]);
        }
    }
}

/// The records of a rewritten text are the records of the text it was made
/// from, in the same order, each with the marker in front exactly when a
/// pattern matches it, and nothing else changed.
pub proof fn lemma_rewrite_records(ps: Seq<Seq<char>>, marker: Seq<char>, text: Seq<char>)
    requires
        single_line(marker),
    ensures
        records_of(annotated(ps, marker, records_of(text))) == marked_all(
            ps,
            marker,
            records_of(text),
        ),
{
    lemma_records_single_line(text);
    lemma_rewrite_recs(ps, marker, records_of(text));
}

proof fn lemma_rewrite_recs(ps: Seq<Seq<char>>, marker: Seq<char>, recs: Seq<Seq<char>>)
    requires
        single_line(marker),
        forall|i: int| 0 <= i < recs.len() ==> single_line(#[trigger] recs[i]),
    ensures
        records_of(annotated(ps, marker, recs)) == marked_all(ps, marker, recs),
{
    lemma_pieces_annotated(ps, marker, recs);
    let t = annotated(ps, marker, recs);
    if recs.len() == 0 {
        assert(marked_all(ps, marker, recs) =~= Seq::empty());
    } else {
        lemma_annotated_ends(ps, marker, recs);
        assert(records_of(t) =~= marked_all(ps, marker, recs));
    }
}

proof fn lemma_annotated_ends(ps: Seq<Seq<char>>, marker: Seq<char>, recs: Seq<Seq<char>>)
    requires
        recs.len() > 0,
    ensures
        annotated(ps, marker, recs).len() > 0,
        annotated(ps, marker, recs).last() == '\n',
{
    let l = annotated_line(ps, marker, recs.last());
    assert(l.last() == '\n');
    assert(annotated(ps, marker, recs) == annotated(ps, marker, recs.drop_last()) + l);
}

/// Rewriting a text a second time with the same patterns puts at most one
/// more marker in front of each record: exactly when a pattern matches the
/// record as the first rewrite left it. The marker is no pattern of its own.
pub proof fn lemma_rewrite_twice(ps: Seq<Seq<char>>, marker: Seq<char>, text: Seq<char>)
    requires
        single_line(marker),
    ensures
        records_of(annotated(ps, marker, records_of(annotated(ps, marker, records_of(text)))))
            == records_of(text).map_values(
            |r: Seq<char>| marked(ps, marker, marked(ps, marker, r)),
        ),
{
    let recs = records_of(text);
    lemma_records_single_line(text);
    lemma_rewrite_recs(ps, marker, recs);
    let once = marked_all(ps, marker, recs);
    assert forall|i: int| 0 <= i < once.len() implies single_line(#[trigger] once[i]) by {
        assert(single_line(recs[i]));
    }
    lemma_rewrite_recs(ps, marker, once);
    assert(marked_all(ps, marker, once) =~= recs.map_values(
        |r: Seq<char>| marked(ps, marker, marked(ps, marker, r)),
    ));
}

/// After texts have been rewritten in turn, the live fragments are the ones
/// there were before, none removed, followed by every record seen, escaped;
/// so there are at least as many more as there were distinct records.
pub proof fn lemma_growth(live: Seq<Seq<char>>, texts: Seq<Seq<char>>)
    ensures
        fed(live, texts) == live + escaped_all(all_records(texts)),
        fed(live, texts).take(live.len() as int) == live,
        forall|i: int|
            0 <= i < all_records(texts).len() ==> fed(live, texts).contains(
                escaped(#[trigger] all_records(texts)[i]),
            ),
        fed(live, texts).len() >= live.len() + all_records(texts).to_set().len(),
    decreases texts.len(),
{
    if texts.len() > 0 {
        lemma_growth(live, texts.drop_last());
        assert(escaped_all(all_records(texts)) =~= escaped_all(all_records(texts.drop_last()))
            + escaped_all(records_of(texts.last())));
        assert(fed(live, texts) =~= live + escaped_all(all_records(texts)));
    } else {
        assert(fed(live, texts) =~= live + escaped_all(all_records(texts)));
    }
    all_records(texts).lemma_cardinality_of_set();
    let all = fed(live, texts);
    assert(all.take(live.len() as int) =~= live);
    assert forall|i: int| 0 <= i < all_records(texts).len() implies all.contains(
        escaped(#[trigger] all_records(texts)[i]),
    ) by {
        assert(all[live.len() + i] == escaped(all_records(texts)[i]));
    }
}

} // verus!
