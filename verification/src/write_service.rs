//! The write service: decode an N-Quads text and store its quads.

use vstd::prelude::*;
use crate::dataset::Dataset;
use crate::nquads_deserialize::{
    deserialize,
    fault_text,
    sp_parse,
    sp_step,
    ParseError,
    ParseOutcomeV,
    ScanState,
    StepResult,
};
use crate::quad::QuadV;

verus! {

/// Parses the given text and inserts each quad into the dataset as soon as
/// it is read. The walk stops at the first parse error: quads read before the
/// fault stay inserted, the rest of the text is not looked at, and the error
/// is returned with its position. The bound on the text length leaves the
/// parser's column counter room in a machine word; any text that fits in
/// memory satisfies it.
pub fn write(nquads: &str, dataset: &mut Dataset) -> (r: Result<(), ParseError>)
    requires
        3 * nquads@.len() + 4 <= usize::MAX,
    ensures
        final(dataset)@ == old(dataset)@ + sp_parse(nquads@, 0, 1, 0).quads.to_set(),
        match sp_parse(nquads@, 0, 1, 0).error {
            Option::None => r is Ok,
            Option::Some(e) => r matches Err(pe) && pe.line == e.line && pe.column == e.column
                && pe.message@ == fault_text(e.fault),
        },
{
    let ghost outcome = sp_parse(nquads@, 0, 1, 0);
    let mut quads = deserialize(nquads);
    let ghost mut parsed: Seq<QuadV> = Seq::empty();
    proof {
        assert(parsed + sp_parse(nquads@, quads.cursor(), quads.line_count(), quads.column_count()).quads
            =~= sp_parse(nquads@, quads.cursor(), quads.line_count(), quads.column_count()).quads);
        assert(parsed.to_set() =~= Set::<QuadV>::empty());
        assert(old(dataset)@ + parsed.to_set() =~= old(dataset)@);
    }
    loop
        invariant
            quads.src_text() == nquads@,
            quads.cursor() <= nquads@.len(),
            3 * nquads@.len() + 4 <= usize::MAX,
            !quads.finished(),
            outcome == sp_parse(nquads@, 0, 1, 0),
            outcome.quads == parsed + sp_parse(
                nquads@,
                quads.cursor(),
                quads.line_count(),
                quads.column_count(),
            ).quads,
            outcome.error == sp_parse(
                nquads@,
                quads.cursor(),
                quads.line_count(),
                quads.column_count(),
            ).error,
            dataset@ == old(dataset)@ + parsed.to_set(),
        decreases nquads@.len() - quads.cursor(),
    {
        let ghost pre_cursor = quads.cursor();
        let ghost pre_line = quads.line_count();
        let ghost pre_column = quads.column_count();
        match quads.next() {
            Option::None => {
                proof {
                    if pre_cursor < nquads@.len() {
                        assert(sp_parse(nquads@, pre_cursor, pre_line, pre_column)
                            == (ParseOutcomeV { quads: Seq::empty(), error: Option::None }));
                    }
                    assert(outcome.quads =~= parsed);
                }
                return Ok(());
            },
            Option::Some(item) => match item {
                Ok(q) => {
                    let ghost qv = q@;
                    proof {
                        crate::nquads_deserialize::lemma_sp_step_bounds(
                            nquads@,
                            pre_cursor,
                            pre_line,
                            pre_column,
                            ScanState::Start,
                        );
                        let rest = sp_parse(
                            nquads@,
                            quads.cursor(),
                            quads.line_count(),
                            quads.column_count(),
                        );
                        assert(sp_parse(nquads@, pre_cursor, pre_line, pre_column)
                            == (ParseOutcomeV {
                            quads: seq![qv] + rest.quads,
                            error: rest.error,
                        }));
                        assert(parsed + (seq![qv] + rest.quads) =~= parsed.push(qv) + rest.quads);
                    }
                    dataset.insert(q);
                    proof {
                        broadcast use vstd::prelude::Seq::lemma_push_to_set_commute;

                        parsed = parsed.push(qv);
                        assert(dataset@ =~= old(dataset)@ + parsed.to_set());
                    }
                },
                Err(e) => {
                    proof {
                        assert(sp_parse(nquads@, pre_cursor, pre_line, pre_column).quads
                            =~= Seq::<QuadV>::empty());
                        assert(outcome.quads =~= parsed);
                    }
                    return Err(e);
                },
            },
        }
    }
}

} // verus!
