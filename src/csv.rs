use vstd::prelude::*;

use crate::error::PipelineError;

verus! {

/// The pieces of `s` between occurrences of `sep`, in order. There is always
/// at least one piece; an empty `s` has one empty piece.
pub open spec fn pieces(s: Seq<u8>, sep: u8) -> Seq<Seq<u8>>
    decreases s.len(),
{
    if s.len() == 0 {
        seq![Seq::empty()]
    } else {
        let p = pieces(s.drop_last(), sep);
        if s.last() == sep {
            p.push(Seq::empty())
        } else {
            p.update(p.len() - 1, p.last().push(s.last()))
        }
    }
}

/// A line without its trailing carriage return, if it has one.
pub open spec fn strip_cr(line: Seq<u8>) -> Seq<u8> {
    if line.len() > 0 && line.last() == 13u8 {
        line.drop_last()
    } else {
        line
    }
}

/// A field without its surrounding double quotes, if it has both.
pub open spec fn unquote(field: Seq<u8>) -> Seq<u8> {
    if field.len() >= 2 && field[0] == 34u8 && field.last() == 34u8 {
        field.subrange(1, field.len() - 1)
    } else {
        field
    }
}

/// The fields of one line.
pub open spec fn line_fields(line: Seq<u8>) -> Seq<Seq<u8>> {
    pieces(strip_cr(line), 44u8).map_values(|f: Seq<u8>| unquote(f))
}

/// A line that holds something besides a carriage return.
pub open spec fn is_record(line: Seq<u8>) -> bool {
    strip_cr(line).len() > 0
}

/// The fields of each non-blank line, in order.
pub open spec fn records_of_lines(lines: Seq<Seq<u8>>) -> Seq<Seq<Seq<u8>>>
    decreases lines.len(),
{
    if lines.len() == 0 {
        Seq::empty()
    } else {
        let r = records_of_lines(lines.drop_last());
        if is_record(lines.last()) {
            r.push(line_fields(lines.last()))
        } else {
            r
        }
    }
}

/// The records of a comma-separated text: its non-blank lines, each cut into
/// fields at the commas, with surrounding quotes removed from each field.
pub open spec fn records(text: Seq<u8>) -> Seq<Seq<Seq<u8>>> {
    records_of_lines(pieces(text, 10u8))
}

/// The cells of a list of records, as sequences.
pub open spec fn records_view(r: Seq<Vec<Vec<u8>>>) -> Seq<Seq<Seq<u8>>> {
    r.map_values(|rec: Vec<Vec<u8>>| rec@.map_values(|f: Vec<u8>| f@))
}

/// The pieces of `s` between occurrences of `sep`.
pub fn split_on(s: &Vec<u8>, sep: u8) -> (r: Vec<Vec<u8>>)
    ensures
        r@.map_values(|p: Vec<u8>| p@) == pieces(s@, sep),
{
    let mut done: Vec<Vec<u8>> = Vec::new();
    let mut cur: Vec<u8> = Vec::new();
    let mut i: usize = 0;
    assert(done@.map_values(|p: Vec<u8>| p@).push(cur@) =~= pieces(s@.subrange(0, 0), sep));
    while i < s.len()
        invariant
            i <= s@.len(),
            done@.map_values(|p: Vec<u8>| p@).push(cur@) == pieces(s@.subrange(0, i as int), sep),
        decreases s@.len() - i,
    {
        let ghost prev = done@.map_values(|p: Vec<u8>| p@).push(cur@);
        assert(s@.subrange(0, i + 1).drop_last() =~= s@.subrange(0, i as int));
        if s[i] == sep {
            done.push(cur);
            cur = Vec::new();
            assert(done@.map_values(|p: Vec<u8>| p@).push(cur@) =~= prev.push(Seq::empty()));
        } else {
            cur.push(s[i]);
            assert(done@.map_values(|p: Vec<u8>| p@).push(cur@) =~= prev.update(
                prev.len() - 1,
                prev.last().push(s@[i as int]),
            ));
        }
        i += 1;
    }
    assert(s@.subrange(0, s@.len() as int) =~= s@);
    done.push(cur);
    assert(done@.map_values(|p: Vec<u8>| p@) =~= pieces(s@, sep));
    done
}

/// `strip_cr` on a line held in a vector.
fn without_cr(line: Vec<u8>) -> (r: Vec<u8>)
    ensures
        r@ == strip_cr(line@),
{
    let ghost original = line@;
    let mut line = line;
    let n = line.len();
    if n > 0 && line[n - 1] == 13u8 {
        line.pop();
        assert(line@ =~= original.drop_last());
    }
    line
}

/// `unquote` on a field held in a vector.
pub fn unquote_field(field: &Vec<u8>) -> (r: Vec<u8>)
    ensures
        r@ == unquote(field@),
{
    let n = field.len();
    let (lo, hi) = if n >= 2 && field[0] == 34u8 && field[n - 1] == 34u8 {
        (1, n - 1)
    } else {
        (0, n)
    };
    let mut out: Vec<u8> = Vec::new();
    let mut i: usize = lo;
    while i < hi
        invariant
            lo <= i <= hi <= n,
            n == field@.len(),
            out@ == field@.subrange(lo as int, i as int),
        decreases hi - i,
    {
        out.push(field[i]);
        i += 1;
        assert(out@ =~= field@.subrange(lo as int, i as int));
    }
    assert(field@.subrange(0, n as int) =~= field@);
    out
}

/// The fields of one line, unquoted.
pub fn fields_of_line(line: Vec<u8>) -> (r: Vec<Vec<u8>>)
    ensures
        r@.map_values(|f: Vec<u8>| f@) == line_fields(line@),
{
    let ghost original = line@;
    let stripped = without_cr(line);
    let parts = split_on(&stripped, 44u8);
    let ghost ps = parts@.map_values(|p: Vec<u8>| p@);
    let mut out: Vec<Vec<u8>> = Vec::new();
    let mut i: usize = 0;
    while i < parts.len()
        invariant
            i <= parts@.len(),
            ps == parts@.map_values(|p: Vec<u8>| p@),
            out@.len() == i,
            forall|k: int| 0 <= k < i ==> #[trigger] out@[k]@ == unquote(ps[k]),
        decreases parts@.len() - i,
    {
        out.push(unquote_field(&parts[i]));
        i += 1;
    }
    assert(out@.map_values(|f: Vec<u8>| f@) =~= line_fields(original));
    out
}

/// The records of a comma-separated text.
pub fn csv_records(text: &Vec<u8>) -> (r: Vec<Vec<Vec<u8>>>)
    ensures
        records_view(r@) == records(text@),
{
    let lines = split_on(text, 10u8);
    let ghost ls = lines@.map_values(|p: Vec<u8>| p@);
    let mut out: Vec<Vec<Vec<u8>>> = Vec::new();
    let mut i: usize = 0;
    while i < lines.len()
        invariant
            i <= lines@.len(),
            ls == lines@.map_values(|p: Vec<u8>| p@),
            records_view(out@) == records_of_lines(ls.subrange(0, i as int)),
        decreases lines@.len() - i,
    {
        assert(ls.subrange(0, i + 1).drop_last() =~= ls.subrange(0, i as int));
        let line = copy_bytes(&lines[i]);
        let stripped = without_cr(copy_bytes(&lines[i]));
        if stripped.len() > 0 {
            let ghost before = records_view(out@);
            out.push(fields_of_line(line));
            assert(records_view(out@) =~= before.push(line_fields(ls[i as int])));
        }
        i += 1;
    }
    assert(ls.subrange(0, ls.len() as int) =~= ls);
    out
}

/// Splits a comma-separated text into its header record and its data
/// records; fails with `Parse` when there is no header or a data record has
/// another number of fields than the header.
pub fn header_and_rows(text: &Vec<u8>) -> (r: Result<
    (Vec<Vec<u8>>, Vec<Vec<Vec<u8>>>),
    PipelineError,
>)
    ensures
        r is Ok <==> records(text@).len() > 0 && (forall|i: int|
            1 <= i < records(text@).len() ==> #[trigger] records(text@)[i].len()
                == records(text@)[0].len()),
        r is Err ==> r->Err_0 == PipelineError::Parse,
        r is Ok ==> {
            let (h, rows) = r->Ok_0;
            &&& h@.map_values(|f: Vec<u8>| f@) == records(text@)[0]
            &&& records_view(rows@) == records(text@).drop_first()
        },
{
    let mut recs = csv_records(text);
    let ghost all = records(text@);
    if recs.len() == 0 {
        return Err(PipelineError::Parse);
    }
    let header = recs.remove(0);
    assert(records_view(recs@) =~= all.drop_first());
    let mut i: usize = 0;
    while i < recs.len()
        invariant
            i <= recs@.len(),
            all == records(text@),
            all.len() == recs@.len() + 1,
            records_view(recs@) == all.drop_first(),
            header@.len() == all[0].len(),
            forall|k: int| 1 <= k < i + 1 ==> #[trigger] all[k].len() == all[0].len(),
        decreases recs@.len() - i,
    {
        assert(records_view(recs@)[i as int] == all[i + 1]);
        assert(all[i + 1].len() == recs@[i as int]@.len());
        if recs[i].len() != header.len() {
            assert(all[i + 1].len() != all[0].len());
            return Err(PipelineError::Parse);
        }
        i += 1;
    }
    Ok((header, recs))
}

fn copy_bytes(v: &Vec<u8>) -> (r: Vec<u8>)
    ensures
        r@ == v@,
{
    let mut out: Vec<u8> = Vec::new();
    let mut i: usize = 0;
    while i < v.len()
        invariant
            i <= v@.len(),
            out@ == v@.subrange(0, i as int),
        decreases v@.len() - i,
    {
        out.push(v[i]);
        i += 1;
        assert(out@ =~= v@.subrange(0, i as int));
    }
    assert(v@.subrange(0, v@.len() as int) =~= v@);
    out
}

} // verus!
