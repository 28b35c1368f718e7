//! The pattern set: literal and regular-expression sources unified into one
//! compiled set, and the line-by-line rewrite that it drives.

use vstd::prelude::*;

use crate::error::AnnotateError;
use crate::outside::{
    any_matches, compile_set, contains, escape_literal, escaped, pattern_matches, set_compiles,
    set_is_match, set_patterns, views,
};
use crate::text::{chomp, chomped, push_char, records_of, split_records};

verus! {

/// The ceiling on the compiled size of the pattern set, in bytes.
pub const SIZE_LIMIT: usize = 4294967000;

/// The prefix put in front of matching lines unless another is chosen.
pub const DEFAULT_MARKER: &'static str = "+=1=+";

/// The records of every file in `files`, in order, each without one trailing
/// newline.
pub open spec fn sources(files: Seq<Seq<char>>) -> Seq<Seq<char>>
    decreases files.len(),
{
    if files.len() == 0 {
        Seq::empty()
    } else {
        sources(files.drop_last()) + records_of(files.last()).map_values(|r: Seq<char>| chomped(r))
    }
}

/// Every record of `recs` escaped so that it matches only itself.
pub open spec fn escaped_all(recs: Seq<Seq<char>>) -> Seq<Seq<char>> {
    recs.map_values(|r: Seq<char>| escaped(r))
}

/// The fragments of a pattern set: the escaped literal records, then the
/// regular-expression records as they stand.
pub open spec fn fragments(literal_texts: Seq<Seq<char>>, regex_texts: Seq<Seq<char>>) -> Seq<
    Seq<char>,
> {
    escaped_all(sources(literal_texts)) + sources(regex_texts)
}

/// One record as written out: the marker first if it matched, then the
/// record and a newline.
pub open spec fn record_text(matched: bool, marker: Seq<char>, line: Seq<char>) -> Seq<char> {
    (if matched {
        marker
    } else {
        Seq::empty()
    }) + line.push('\n')
}

/// One record as written out against the fragments `ps`.
pub open spec fn annotated_line(ps: Seq<Seq<char>>, marker: Seq<char>, line: Seq<char>) -> Seq<
    char,
> {
    record_text(any_matches(ps, line), marker, line)
}

/// Appends one record to `out`: the marker first if it matched, then the
/// record and a newline.
pub fn write_record(out: &mut String, matched: bool, marker: &str, line: &str)
    ensures
        final(out)@ == old(out)@ + record_text(matched, marker@, line@),
{
    if matched {
        out.append(marker);
    }
    out.append(line);
    push_char(out, '\n');
    assert(final(out)@ =~= old(out)@ + record_text(matched, marker@, line@));
}

/// The text written for the records `recs`.
pub open spec fn annotated(ps: Seq<Seq<char>>, marker: Seq<char>, recs: Seq<Seq<char>>) -> Seq<
    char,
>
    decreases recs.len(),
{
    if recs.len() == 0 {
        Seq::empty()
    } else {
        annotated(ps, marker, recs.drop_last()) + annotated_line(ps, marker, recs.last())
    }
}

/// A compiled pattern set together with the live list of fragments that keeps
/// growing as lines are seen.
///
/// The compiled set is built once, from the fragments that the pattern
/// sources give; the lines seen later join the live list but not the compiled
/// set, so they never change which lines are marked.
pub struct Annotator {
    patterns: Vec<String>,
    set: regex::RegexSet,
    marker: String,
}

impl Annotator {
    /// The live fragments, oldest first.
    pub closed spec fn live(&self) -> Seq<Seq<char>> {
        views(self.patterns@)
    }

    /// The fragments the compiled set was built from.
    pub closed spec fn compiled(&self) -> Seq<Seq<char>> {
        set_patterns(self.set)
    }

    /// The prefix put in front of matching lines.
    pub closed spec fn marker_view(&self) -> Seq<char> {
        self.marker@
    }

    /// The compiled fragments are the first ones of the live list.
    pub open spec fn wf(&self) -> bool {
        &&& self.compiled().len() <= self.live().len()
        &&& self.live().take(self.compiled().len() as int) == self.compiled()
    }

    /// Some compiled fragment matches somewhere in `line`.
    pub open spec fn matches(&self, line: Seq<char>) -> bool {
        any_matches(self.compiled(), line)
    }

    /// Reads the records of each text, escapes those of `literal_texts`,
    /// keeps those of `regex_texts` as they are, and compiles them all into
    /// one set. Each text is the whole content of one pattern source.
    pub fn compile(literal_texts: &Vec<String>, regex_texts: &Vec<String>, marker: String) -> (r:
        Result<Annotator, AnnotateError>)
        ensures
            literal_texts.len() == 0 && regex_texts.len() == 0 ==> r matches Err(
                AnnotateError::NoPatternSources,
            ),
            literal_texts.len() + regex_texts.len() > 0 ==> (r is Ok <==> set_compiles(
                fragments(views(literal_texts@), views(regex_texts@)),
                SIZE_LIMIT as nat,
            )),
            literal_texts.len() + regex_texts.len() > 0 && r is Err ==> r->Err_0 is MatcherCompilationFailed,
            r is Ok ==> ({
                let a = r->Ok_0;
                &&& a.wf()
                &&& a.compiled() == fragments(views(literal_texts@), views(regex_texts@))
                &&& a.live() == a.compiled()
                &&& a.marker_view() == marker@
            }),
            r is Ok ==> forall|k: int, t: Seq<char>|
                0 <= k < sources(views(literal_texts@)).len() ==> #[trigger] pattern_matches(
                    r->Ok_0.compiled()[k],
                    t,
                ) == contains(t, sources(views(literal_texts@))[k]),
            r is Ok ==> forall|k: int, t: Seq<char>|
                0 <= k < sources(views(literal_texts@)).len() && #[trigger] contains(
                    t,
                    sources(views(literal_texts@))[k],
                ) ==> r->Ok_0.matches(t),
            r is Ok && regex_texts.len() == 0 ==> forall|t: Seq<char>|
                #[trigger] r->Ok_0.matches(t) == exists|k: int|
                    0 <= k < sources(views(literal_texts@)).len() && contains(
                        t,
                        sources(views(literal_texts@))[k],
                    ),
    {
        if literal_texts.len() == 0 && regex_texts.len() == 0 {
            return Err(AnnotateError::NoPatternSources);
        }
        let ghost lits = views(literal_texts@);
        let ghost regs = views(regex_texts@);
        let mut patterns: Vec<String> = Vec::new();
        let ghost mut srcs: Seq<Seq<char>> = Seq::empty();
        let mut fi: usize = 0;
        while fi < literal_texts.len()
            invariant
                fi <= literal_texts.len(),
                lits == views(literal_texts@),
                srcs == sources(lits.take(fi as int)),
                views(patterns@) == escaped_all(srcs),
                forall|k: int, t: Seq<char>|
                    0 <= k < srcs.len() ==> #[trigger] pattern_matches(views(patterns@)[k], t)
                        == contains(t, srcs[k]),
            decreases literal_texts.len() - fi,
        {
            let records = split_records(literal_texts[fi].as_str());
            let ghost recs = records_of(lits[fi as int]);
            let ghost start = srcs;
            let mut ri: usize = 0;
            while ri < records.len()
                invariant
                    ri <= records.len(),
                    views(records@) == recs,
                    srcs == start + recs.take(ri as int).map_values(|r: Seq<char>| chomped(r)),
                    views(patterns@) == escaped_all(srcs),
                    forall|k: int, t: Seq<char>|
                        0 <= k < srcs.len() ==> #[trigger] pattern_matches(views(patterns@)[k], t)
                            == contains(t, srcs[k]),
                decreases records.len() - ri,
            {
                let mut line = records[ri].clone();
                chomp(&mut line);
                let fragment = escape_literal(line.as_str());
                let ghost before = views(patterns@);
                patterns.push(fragment);
                proof {
                    assert(views(patterns@) =~= before.push(fragment@));
                    assert(recs[ri as int] == records@[ri as int]@);
                    assert(recs.take(ri + 1).map_values(|r: Seq<char>| chomped(r)) =~= recs.take(
                        ri as int,
                    ).map_values(|r: Seq<char>| chomped(r)).push(line@));
                    srcs = srcs.push(line@);
                    assert(views(patterns@) =~= escaped_all(srcs));
                    assert forall|k: int, t: Seq<char>| 0 <= k < srcs.len() implies #[trigger] pattern_matches(
                        views(patterns@)[k],
                        t,
                    ) == contains(t, srcs[k]) by {
                        if k == srcs.len() - 1 {
                            assert(views(patterns@)[k] == fragment@);
                        } else {
                            assert(views(patterns@)[k] == before[k]);
                        }
                    }
                }
                ri = ri + 1;
            }
            proof {
                assert(recs.take(records.len() as int) =~= recs);
                assert(lits.take(fi + 1).drop_last() =~= lits.take(fi as int));
            }
            fi = fi + 1;
        }
        assert(lits.take(literal_texts.len() as int) =~= lits);
        let ghost lit_srcs = srcs;
        let ghost lit_count = patterns@.len();
        let mut fi: usize = 0;
        while fi < regex_texts.len()
            invariant
                fi <= regex_texts.len(),
                regs == views(regex_texts@),
                lit_srcs == sources(lits),
                lit_count == lit_srcs.len(),
                views(patterns@) == escaped_all(lit_srcs) + sources(regs.take(fi as int)),
                forall|k: int, t: Seq<char>|
                    0 <= k < lit_srcs.len() ==> #[trigger] pattern_matches(views(patterns@)[k], t)
                        == contains(t, lit_srcs[k]),
            decreases regex_texts.len() - fi,
        {
            let records = split_records(regex_texts[fi].as_str());
            let ghost recs = records_of(regs[fi as int]);
            let ghost start = views(patterns@);
            let mut ri: usize = 0;
            while ri < records.len()
                invariant
                    ri <= records.len(),
                    views(records@) == recs,
                    lit_count == lit_srcs.len(),
                    start.len() >= lit_count,
                    views(patterns@) == start + recs.take(ri as int).map_values(
                        |r: Seq<char>| chomped(r),
                    ),
                    forall|k: int, t: Seq<char>|
                        0 <= k < lit_srcs.len() ==> #[trigger] pattern_matches(
                            views(patterns@)[k],
                            t,
                        ) == contains(t, lit_srcs[k]),
                decreases records.len() - ri,
            {
                let mut line = records[ri].clone();
                chomp(&mut line);
                let ghost before = views(patterns@);
                patterns.push(line);
                proof {
                    assert(views(patterns@) =~= before.push(line@));
                    assert(recs[ri as int] == records@[ri as int]@);
                    assert(views(patterns@) =~= start + recs.take(ri + 1).map_values(
                        |r: Seq<char>| chomped(r),
                    ));
                    assert forall|k: int, t: Seq<char>| 0 <= k < lit_srcs.len() implies #[trigger] pattern_matches(
                        views(patterns@)[k],
                        t,
                    ) == contains(t, lit_srcs[k]) by {
                        assert(views(patterns@)[k] == before[k]);
                    }
                }
                ri = ri + 1;
            }
            proof {
                assert(recs.take(records.len() as int) =~= recs);
                assert(regs.take(fi + 1).drop_last() =~= regs.take(fi as int));
                assert(views(patterns@) =~= escaped_all(lit_srcs) + sources(regs.take(fi + 1)));
            }
            fi = fi + 1;
        }
        assert(regs.take(regex_texts.len() as int) =~= regs);
        match compile_set(&patterns, SIZE_LIMIT) {
            Err(e) => Err(AnnotateError::MatcherCompilationFailed(e)),
            Ok(set) => {
                let a = Annotator { patterns, set, marker };
                assert(a.live().take(a.compiled().len() as int) =~= a.compiled());
                assert forall|k: int, t: Seq<char>|
                    0 <= k < sources(lits).len() && #[trigger] contains(
                        t,
                        sources(lits)[k],
                    ) implies a.matches(t) by {
                    assert(pattern_matches(a.compiled()[k], t));
                }
                assert(regex_texts.len() == 0 ==> sources(regs) =~= Seq::<Seq<char>>::empty());
                assert forall|t: Seq<char>| regex_texts.len() == 0 implies #[trigger] a.matches(t)
                    == exists|k: int| 0 <= k < sources(lits).len() && contains(t, sources(lits)[k]) by {
                    if regex_texts.len() == 0 {
                        assert(a.compiled().len() == sources(lits).len());
                        if a.matches(t) {
                            let k = choose|k: int|
                                0 <= k < a.compiled().len() && #[trigger] pattern_matches(
                                    a.compiled()[k],
                                    t,
                                );
                            assert(contains(t, sources(lits)[k]));
                        }
                    }
                }
                Ok(a)
            },
        }
    }

    /// Whether some compiled fragment matches somewhere in `line`.
    pub fn is_match(&self, line: &str) -> (r: bool)
        ensures
            r == self.matches(line@),
    {
        set_is_match(&self.set, line)
    }

    /// The prefix put in front of matching lines.
    pub fn marker(&self) -> (r: &str)
        ensures
            r@ == self.marker_view(),
    {
        self.marker.as_str()
    }

    /// The number of live fragments.
    pub fn pattern_count(&self) -> (r: usize)
        ensures
            r == self.live().len(),
    {
        self.patterns.len()
    }

    /// Rewrites the text of one file: each record is written with a newline
    /// after it, and with the marker before it when a compiled fragment
    /// matches it. Every record, escaped, joins the live fragments; the
    /// compiled set stays as it was.
    pub fn annotate_text(&mut self, text: &str) -> (r: String)
        requires
            old(self).wf(),
        ensures
            final(self).wf(),
            final(self).compiled() == old(self).compiled(),
            final(self).marker_view() == old(self).marker_view(),
            final(self).live() == old(self).live() + escaped_all(records_of(text@)),
            r@ == annotated(old(self).compiled(), old(self).marker_view(), records_of(text@)),
    {
        let records = split_records(text);
        let ghost recs = records_of(text@);
        let ghost ps = self.compiled();
        let ghost start = self.live();
        let mut out = String::new();
        let mut i: usize = 0;
        while i < records.len()
            invariant
                i <= records.len(),
                views(records@) == recs,
                self.compiled() == ps,
                self.marker_view() == old(self).marker_view(),
                start == old(self).live(),
                ps.len() <= start.len(),
                start.take(ps.len() as int) == ps,
                self.live() == start + escaped_all(recs.take(i as int)),
                out@ == annotated(ps, self.marker_view(), recs.take(i as int)),
            decreases records.len() - i,
        {
            let line = records[i].as_str();
            proof {
                assert(line@ == recs[i as int]);
                assert(recs.take(i + 1).drop_last() =~= recs.take(i as int));
            }
            let ghost before = out@;
            let matched = set_is_match(&self.set, line);
            write_record(&mut out, matched, self.marker.as_str(), line);
            assert(out@ =~= before + annotated_line(ps, self.marker_view(), line@));
            let fragment = escape_literal(line);
            let ghost live = self.live();
            self.patterns.push(fragment);
            assert(self.live() =~= live.push(fragment@));
            assert(escaped_all(recs.take(i + 1)) =~= escaped_all(recs.take(i as int)).push(fragment@));
            i = i + 1;
        }
        assert(recs.take(records.len() as int) =~= recs);
        assert(self.live().take(ps.len() as int) =~= ps);
        out
    }
}

} // verus!
