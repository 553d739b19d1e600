//! The output writer's verified half: rendering the translated records into
//! the output file's text, one `index: text` line per record, in order.
//! Writing the file is plain I/O and stays outside the library.

use crate::text::lemma_dec_digits;
use crate::text::lemma_lines_peel;
use crate::text::spec_dec;
use crate::text::spec_lines;
use crate::text::spec_strip_cr;
use crate::text::usize_to_string;
use vstd::prelude::*;
use vstd::string::StringExecFns;

verus! {

/// One output line: the record's index in decimal, a colon and a space, the
/// record's text, and a newline.
pub open spec fn spec_render_line(index: nat, text: Seq<char>) -> Seq<char> {
    spec_dec(index) + seq![':', ' '] + text + seq!['\n']
}

/// The whole output text: the records' lines, in record order.
pub open spec fn spec_render(records: Seq<(usize, String)>) -> Seq<char>
    decreases records.len(),
{
    if records.len() == 0 {
        Seq::empty()
    } else {
        spec_render_line(records[0].0 as nat, records[0].1@) + spec_render(records.drop_first())
    }
}

proof fn lemma_render_push(records: Seq<(usize, String)>, p: (usize, String))
    ensures
        spec_render(records.push(p)) == spec_render(records) + spec_render_line(p.0 as nat, p.1@),
    decreases records.len(),
{
    if records.len() == 0 {
        assert(records.push(p)[0] == p);
        assert(records.push(p).drop_first() =~= records);
        assert(spec_render(records.push(p)) =~= spec_render(records) + spec_render_line(
            p.0 as nat,
            p.1@,
        ));
    } else {
        assert(records.push(p).drop_first() =~= records.drop_first().push(p));
        lemma_render_push(records.drop_first(), p);
        assert(records.push(p)[0] == records[0]);
        assert(spec_render_line(records[0].0 as nat, records[0].1@) + (spec_render(
            records.drop_first(),
        ) + spec_render_line(p.0 as nat, p.1@)) =~= (spec_render_line(
            records[0].0 as nat,
            records[0].1@,
        ) + spec_render(records.drop_first())) + spec_render_line(p.0 as nat, p.1@));
    }
}

/// Renders the translated records into the output text, exactly as
/// `spec_render` describes.
pub fn render_output(records: &Vec<(usize, String)>) -> (r: String)
    ensures
        r@ == spec_render(records@),
{
    let mut out = String::new();
    let mut i: usize = 0;
    proof {
        assert(records@.take(0) =~= Seq::<(usize, String)>::empty());
    }
    while i < records.len()
        invariant
            i <= records@.len(),
            out@ == spec_render(records@.take(i as int)),
        decreases records@.len() - i,
    {
        let ghost out0 = out@;
        let num = usize_to_string(records[i].0);
        out.append(num.as_str());
        out.append(": ");
        out.append(records[i].1.as_str());
        out.append("\n");
        proof {
            reveal_strlit(": ");
            reveal_strlit("\n");
            assert(": "@ =~= seq![':', ' ']);
            assert("\n"@ =~= seq!['\n']);
            lemma_render_push(records@.take(i as int), records@[i as int]);
            assert(records@.take(i + 1) =~= records@.take(i as int).push(records@[i as int]));
            assert(out@ =~= out0 + spec_render_line(
                records@[i as int].0 as nat,
                records@[i as int].1@,
            ));
        }
        i = i + 1;
    }
    proof {
        assert(records@.take(records@.len() as int) =~= records@);
    }
    out
}

/// A record text that renders onto a single output line: it holds no
/// newline and does not end with a carriage return.
pub open spec fn line_safe(text: Seq<char>) -> bool {
    &&& forall|k: int| 0 <= k < text.len() ==> text[k] != '\n'
    &&& (text.len() == 0 || text.last() != '\r')
}

/// Record order is preserved end-to-end: rendering line-safe records gives
/// a text that splits back into exactly one record per input record, in
/// input order, each line carrying its record's index prefix and text.
pub proof fn lemma_render_preserves_order(records: Seq<(usize, String)>)
    requires
        forall|i: int| 0 <= i < records.len() ==> line_safe((#[trigger] records[i]).1@),
    ensures
        spec_lines(spec_render(records)).len() == records.len(),
        forall|i: int|
            0 <= i < records.len() ==> spec_lines(spec_render(records))[i] == spec_dec(
                (#[trigger] records[i]).0 as nat,
            ) + seq![':', ' '] + records[i].1@,
    decreases records.len(),
{
    if records.len() == 0 {
        assert(spec_lines(spec_render(records)) =~= Seq::<Seq<char>>::empty());
    } else {
        let w = spec_dec(records[0].0 as nat) + seq![':', ' '] + records[0].1@;
        let rest = spec_render(records.drop_first());
        lemma_dec_digits(records[0].0 as nat);
        assert forall|k: int| 0 <= k < w.len() implies w[k] != '\n' by {
            if k < spec_dec(records[0].0 as nat).len() {
                assert(w[k] == spec_dec(records[0].0 as nat)[k]);
            } else if k < spec_dec(records[0].0 as nat).len() + 2 {
                assert(w[k] == seq![':', ' '][k - spec_dec(records[0].0 as nat).len()]);
            } else {
                assert(w[k] == records[0].1@[k - spec_dec(records[0].0 as nat).len() - 2]);
            }
        }
        assert(spec_render(records) =~= w + seq!['\n'] + rest);
        lemma_lines_peel(w, rest);
        assert(spec_strip_cr(w) == w) by {
            if records[0].1@.len() == 0 {
                assert(w.last() == ' ');
            } else {
                assert(w.last() == records[0].1@.last());
            }
        }
        assert forall|i: int| 0 <= i < records.drop_first().len() implies line_safe(
            (#[trigger] records.drop_first()[i]).1@,
        ) by {
            assert(records.drop_first()[i] == records[i + 1]);
        }
        lemma_render_preserves_order(records.drop_first());
        assert forall|i: int| 0 <= i < records.len() implies spec_lines(spec_render(records))[i]
            == spec_dec((#[trigger] records[i]).0 as nat) + seq![':', ' '] + records[i].1@ by {
            if i == 0 {
                assert(spec_lines(spec_render(records))[0] == w);
            } else {
                assert(spec_lines(spec_render(records))[i] == spec_lines(rest)[i - 1]);
                assert(records.drop_first()[i - 1] == records[i]);
            }
        }
    }
}

/// Document ordering is preserved end-to-end: a translated document whose
/// records are numbered from zero in order renders to a text of exactly as
/// many lines, the i-th being i's decimal rendering, a colon and a space,
/// and the i-th record's text.
pub proof fn lemma_output_order_end_to_end(records: Seq<(usize, String)>)
    requires
        forall|i: int| 0 <= i < records.len() ==> (#[trigger] records[i]).0 == i,
        forall|i: int| 0 <= i < records.len() ==> line_safe((#[trigger] records[i]).1@),
    ensures
        spec_lines(spec_render(records)).len() == records.len(),
        forall|i: int|
            0 <= i < records.len() ==> spec_lines(spec_render(records))[i] == spec_dec(i as nat)
                + seq![':', ' '] + records[i].1@,
{
    lemma_render_preserves_order(records);
}

} // verus!
