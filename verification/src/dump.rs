//! Rendering a session as breadcrumb lines, one per value: the consumer
//! that prints a session walks every section, measurement and nested fault
//! sub-measurement, and emits `section >> measurement [>> nested...] >>
//! caption: raw value` with `undefined` for an absent raw value.  Only the
//! rendering is done here; printing is the caller's concern.

use vstd::prelude::*;
use vstd::string::StringExecFns;
use crate::model::{Measurement, ZdcSession};
use crate::model::ValueEnum;

verus! {

broadcast use vstd::seq::axiom_seq_index_decreases, vstd::seq::axiom_seq_subrange_decreases, vstd::std_specs::vec::axiom_vec_decreases_to_view;

/// The views of a sequence of strings.
pub open spec fn spec_string_views(ss: Seq<String>) -> Seq<Seq<char>> {
    ss.map_values(|s: String| s@)
}

proof fn lemma_string_views_push(ss: Seq<String>, x: String)
    ensures
        spec_string_views(ss.push(x)) == spec_string_views(ss).push(x@),
{
    assert(spec_string_views(ss.push(x)) =~= spec_string_views(ss).push(x@));
}

/// The breadcrumb line of one value under the given prefix.
pub open spec fn spec_value_line(prefix: Seq<char>, v: ValueEnum) -> Seq<char> {
    prefix + " >> "@ + v.spec_text() + ": "@ + (match v.spec_value() {
        Some(s) => s@,
        None => "undefined"@,
    })
}

/// The lines of a run of values, in order.
pub open spec fn spec_values_lines(prefix: Seq<char>, vs: Seq<ValueEnum>) -> Seq<Seq<char>>
    decreases vs.len(),
{
    if vs.len() == 0 {
        Seq::empty()
    } else {
        seq![spec_value_line(prefix, vs[0])] + spec_values_lines(prefix, vs.drop_first())
    }
}

proof fn lemma_values_lines_push(prefix: Seq<char>, vs: Seq<ValueEnum>, v: ValueEnum)
    ensures
        spec_values_lines(prefix, vs.push(v)) == spec_values_lines(prefix, vs).push(
            spec_value_line(prefix, v),
        ),
    decreases vs.len(),
{
    if vs.len() == 0 {
        assert(vs.push(v)[0] == v);
        assert(vs.push(v).drop_first() =~= vs);
        assert(seq![spec_value_line(prefix, v)] + Seq::<Seq<char>>::empty()
            =~= Seq::<Seq<char>>::empty().push(spec_value_line(prefix, v)));
    } else {
        assert(vs.push(v)[0] == vs[0]);
        assert(vs.push(v).drop_first() =~= vs.drop_first().push(v));
        lemma_values_lines_push(prefix, vs.drop_first(), v);
        assert(seq![spec_value_line(prefix, vs[0])] + spec_values_lines(
            prefix,
            vs.drop_first(),
        ).push(spec_value_line(prefix, v)) =~= (seq![spec_value_line(prefix, vs[0])]
            + spec_values_lines(prefix, vs.drop_first())).push(spec_value_line(prefix, v)));
    }
}

/// The lines of one measurement under the given prefix: the lines of its
/// nested fault sub-measurements first, then its own value lines, each
/// under the prefix extended with this measurement's title.
pub open spec fn spec_measurement_lines(prefix: Seq<char>, m: Measurement) -> Seq<Seq<char>>
    decreases m,
{
    (match m {
        Measurement::Fehler(mm) => match mm.measurements {
            Some(subs) => spec_measurements_lines(
                prefix + " >> "@ + m.spec_title(),
                subs@,
            ),
            None => Seq::empty(),
        },
        _ => Seq::empty(),
    }) + (match m.spec_values() {
        Some(vs) => spec_values_lines(prefix + " >> "@ + m.spec_title(), vs),
        None => Seq::empty(),
    })
}

/// The lines of a run of measurements, in order.
pub open spec fn spec_measurements_lines(prefix: Seq<char>, ms: Seq<Measurement>) -> Seq<
    Seq<char>,
>
    decreases ms,
{
    if ms.len() == 0 {
        Seq::empty()
    } else {
        spec_measurement_lines(prefix, ms[0]) + spec_measurements_lines(
            prefix,
            ms.drop_first(),
        )
    }
}

proof fn lemma_measurements_lines_push(prefix: Seq<char>, ms: Seq<Measurement>, m: Measurement)
    ensures
        spec_measurements_lines(prefix, ms.push(m)) == spec_measurements_lines(prefix, ms)
            + spec_measurement_lines(prefix, m),
    decreases ms.len(),
{
    if ms.len() == 0 {
        assert(ms.push(m)[0] == m);
        assert(ms.push(m).drop_first() =~= ms);
        assert(spec_measurement_lines(prefix, m) + Seq::<Seq<char>>::empty()
            =~= Seq::<Seq<char>>::empty() + spec_measurement_lines(prefix, m));
    } else {
        assert(ms.push(m)[0] == ms[0]);
        assert(ms.push(m).drop_first() =~= ms.drop_first().push(m));
        lemma_measurements_lines_push(prefix, ms.drop_first(), m);
        assert(spec_measurement_lines(prefix, ms[0]) + (spec_measurements_lines(
            prefix,
            ms.drop_first(),
        ) + spec_measurement_lines(prefix, m)) =~= (spec_measurement_lines(prefix, ms[0])
            + spec_measurements_lines(prefix, ms.drop_first())) + spec_measurement_lines(
            prefix,
            m,
        ));
    }
}

/// The lines of a whole session: each section's measurements under the
/// section title, in document order.
pub open spec fn spec_sections_lines(ss: Seq<crate::model::Section>) -> Seq<Seq<char>>
    decreases ss.len(),
{
    if ss.len() == 0 {
        Seq::empty()
    } else {
        spec_measurements_lines(ss[0].spec_title(), ss[0].spec_measurements())
            + spec_sections_lines(ss.drop_first())
    }
}

pub open spec fn spec_session_lines(z: ZdcSession) -> Seq<Seq<char>> {
    spec_sections_lines(z.hex_service.sections@)
}

/// Append one line per direct value of the measurement, under the given
/// breadcrumb prefix.
#[verifier::loop_isolation(false)]
fn push_value_lines(prefix: &String, m: &Measurement, out: &mut Vec<String>)
    ensures
        spec_string_views(final(out)@) == spec_string_views(old(out)@) + (match m.spec_values() {
            Some(vs) => spec_values_lines(prefix@, vs),
            None => Seq::<Seq<char>>::empty(),
        }),
{
    proof {
        assert(spec_string_views(out@) + Seq::<Seq<char>>::empty() =~= spec_string_views(out@));
        assert(out@.subrange(0, out@.len() as int) =~= out@);
    }
    match m.get_values() {
        Some(values) => {
            let n = values.len();
            let mut k: usize = 0;
            proof {
                assert(values@.subrange(0, 0) =~= Seq::<ValueEnum>::empty());
            }
            while k < n
                invariant
                    n == values@.len(),
                    k <= n,
                    spec_string_views(out@) == spec_string_views(old(out)@)
                        + spec_values_lines(prefix@, values@.subrange(0, k as int)),
                decreases n - k,
            {
                let v = &values[k];
                let mut line = prefix.clone();
                line.append(" >> ");
                line.append(v.get_text().as_str());
                line.append(": ");
                match v.get_value() {
                    Some(rv) => {
                        line.append(rv.as_str());
                    },
                    None => {
                        line.append("undefined");
                    },
                }
                proof {
                    assert(line@ == spec_value_line(prefix@, values@[k as int]));
                    assert(values@.subrange(0, k + 1 as int) =~= values@.subrange(
                        0,
                        k as int,
                    ).push(values@[k as int]));
                    lemma_values_lines_push(
                        prefix@,
                        values@.subrange(0, k as int),
                        values@[k as int],
                    );
                }
                let ghost prev = out@;
                out.push(line);
                proof {
                    lemma_string_views_push(prev, out@[out@.len() - 1]);
                }
                k += 1;
            }
            proof {
                assert(values@.subrange(0, n as int) =~= values@);
            }
        },
        None => {},
    }
}

/// Append the lines of one measurement: first those of its nested fault
/// sub-measurements, then its own value lines, as the dump consumer prints
/// them.
#[verifier::loop_isolation(false)]
pub fn dump_measurement_lines(prefix: &String, m: &Measurement, out: &mut Vec<String>)
    ensures
        spec_string_views(final(out)@) == spec_string_views(old(out)@) + spec_measurement_lines(
            prefix@,
            *m,
        ),
    decreases *m,
{
    let mut p2 = prefix.clone();
    p2.append(" >> ");
    p2.append(m.get_title().as_str());
    proof {
        assert(p2@ == prefix@ + " >> "@ + m.spec_title());
    }
    match m {
        Measurement::Fehler(mm) => {
            match &mm.measurements {
                Some(subs) => {
                    let n = subs.len();
                    let mut k: usize = 0;
                    proof {
                        assert(subs@.subrange(0, 0) =~= Seq::<Measurement>::empty());
                        assert(spec_string_views(out@) + Seq::<Seq<char>>::empty()
                            =~= spec_string_views(out@));
                    }
                    while k < n
                        invariant
                            n == subs@.len(),
                            k <= n,
                            spec_string_views(out@) == spec_string_views(old(out)@)
                                + spec_measurements_lines(p2@, subs@.subrange(0, k as int)),
                        decreases n - k,
                    {
                        proof {
                            assert(subs@.subrange(0, k + 1 as int) =~= subs@.subrange(
                                0,
                                k as int,
                            ).push(subs@[k as int]));
                            lemma_measurements_lines_push(
                                p2@,
                                subs@.subrange(0, k as int),
                                subs@[k as int],
                            );
                        }
                        let ghost before = spec_string_views(out@);
                        dump_measurement_lines(&p2, &subs[k], out);
                        proof {
                            assert(spec_string_views(out@) =~= spec_string_views(old(out)@)
                                + spec_measurements_lines(
                                p2@,
                                subs@.subrange(0, k + 1 as int),
                            ));
                        }
                        k += 1;
                    }
                    proof {
                        assert(subs@.subrange(0, n as int) =~= subs@);
                    }
                },
                None => {},
            }
        },
        _ => {},
    }
    let ghost mid = spec_string_views(out@);
    push_value_lines(&p2, m, out);
    proof {
        assert(spec_string_views(out@) =~= spec_string_views(old(out)@)
            + spec_measurement_lines(prefix@, *m));
    }
}

/// The breadcrumb lines of a whole session, in document order.
#[verifier::loop_isolation(false)]
pub fn zdc_dump_lines(z: &ZdcSession) -> (out: Vec<String>)
    ensures
        spec_string_views(out@) == spec_session_lines(*z),
{
    let mut out: Vec<String> = Vec::new();
    let sections = &z.hex_service.sections;
    let n = sections.len();
    let mut i: usize = 0;
    proof {
        assert(spec_string_views(out@) =~= Seq::<Seq<char>>::empty());
        assert(spec_sections_lines(sections@.subrange(0, 0)) =~= Seq::<Seq<char>>::empty());
    }
    while i < n
        invariant
            n == sections@.len(),
            i <= n,
            spec_string_views(out@) == spec_sections_lines(sections@.subrange(0, i as int)),
        decreases n - i,
    {
        let section = &sections[i];
        let prefix = section.get_title().clone();
        let ms = section.get_measurements();
        let m_count = ms.len();
        let mut k: usize = 0;
        let ghost section_start = spec_string_views(out@);
        proof {
            assert(ms@.subrange(0, 0) =~= Seq::<Measurement>::empty());
            assert(section_start + Seq::<Seq<char>>::empty() =~= section_start);
        }
        while k < m_count
            invariant
                m_count == ms@.len(),
                k <= m_count,
                prefix@ == sections@[i as int].spec_title(),
                ms@ == sections@[i as int].spec_measurements(),
                i < n,
                spec_string_views(out@) == section_start + spec_measurements_lines(
                    prefix@,
                    ms@.subrange(0, k as int),
                ),
            decreases m_count - k,
        {
            proof {
                assert(ms@.subrange(0, k + 1 as int) =~= ms@.subrange(0, k as int).push(
                    ms@[k as int],
                ));
                lemma_measurements_lines_push(prefix@, ms@.subrange(0, k as int), ms@[k as int]);
            }
            dump_measurement_lines(&prefix, &ms[k], &mut out);
            proof {
                assert(spec_string_views(out@) =~= section_start + spec_measurements_lines(
                    prefix@,
                    ms@.subrange(0, k + 1 as int),
                ));
            }
            k += 1;
        }
        proof {
            assert(ms@.subrange(0, m_count as int) =~= ms@);
            assert(sections@.subrange(0, i + 1 as int) =~= sections@.subrange(0, i as int).push(
                sections@[i as int],
            ));
            lemma_sections_lines_push(sections@.subrange(0, i as int), sections@[i as int]);
            assert(spec_string_views(out@) =~= spec_sections_lines(sections@.subrange(
                0,
                i + 1 as int,
            )));
        }
        i += 1;
    }
    proof {
        assert(sections@.subrange(0, n as int) =~= sections@);
    }
    out
}

proof fn lemma_sections_lines_push(ss: Seq<crate::model::Section>, sec: crate::model::Section)
    ensures
        spec_sections_lines(ss.push(sec)) == spec_sections_lines(ss) + spec_measurements_lines(
            sec.spec_title(),
            sec.spec_measurements(),
        ),
    decreases ss.len(),
{
    if ss.len() == 0 {
        assert(ss.push(sec)[0] == sec);
        assert(ss.push(sec).drop_first() =~= ss);
        let part = spec_measurements_lines(sec.spec_title(), sec.spec_measurements());
        assert(part + Seq::<Seq<char>>::empty() =~= Seq::<Seq<char>>::empty() + part);
    } else {
        assert(ss.push(sec)[0] == ss[0]);
        assert(ss.push(sec).drop_first() =~= ss.drop_first().push(sec));
        lemma_sections_lines_push(ss.drop_first(), sec);
        let head = spec_measurements_lines(ss[0].spec_title(), ss[0].spec_measurements());
        let part = spec_measurements_lines(sec.spec_title(), sec.spec_measurements());
        assert(head + (spec_sections_lines(ss.drop_first()) + part) =~= (head
            + spec_sections_lines(ss.drop_first())) + part);
    }
}

} // verus!
