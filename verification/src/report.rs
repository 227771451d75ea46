//! The invalid-object reporter: builds one text buffer per file that
//! holds unclassifiable objects, and concatenates all buffers into the
//! run's aggregate report.

use vstd::prelude::*;

verus! {

/// The bytes of `"File: "`, the prefix of a per-file report header.
pub open spec fn spec_header_prefix() -> Seq<u8> {
    seq![70u8, 105u8, 108u8, 101u8, 58u8, 32u8]
}

/// A per-file report header: `"File: "`, the file's display name, and a
/// line break.
pub open spec fn spec_header(name: Seq<u8>) -> Seq<u8> {
    spec_header_prefix() + name + seq![10u8]
}

/// Serialized entries, one per line: each entry's bytes followed by a
/// line break.
pub open spec fn spec_entry_lines(entries: Seq<Seq<u8>>) -> Seq<u8>
    decreases entries.len(),
{
    if entries.len() == 0 {
        Seq::empty()
    } else {
        spec_entry_lines(entries.drop_last()) + entries.last() + seq![10u8]
    }
}

/// One file's report block: the header naming the file once, one line
/// per entry, and a closing blank line separating it from the next block.
pub open spec fn spec_file_report(name: Seq<u8>, entries: Seq<Seq<u8>>) -> Seq<u8> {
    spec_header(name) + spec_entry_lines(entries) + seq![10u8]
}

/// The aggregate report: every file's block, one after the other.
pub open spec fn spec_concat(parts: Seq<Seq<u8>>) -> Seq<u8>
    decreases parts.len(),
{
    if parts.len() == 0 {
        Seq::empty()
    } else {
        spec_concat(parts.drop_last()) + parts.last()
    }
}

/// Appends every byte of `src` to `out`.
pub fn push_all(out: &mut Vec<u8>, src: &Vec<u8>)
    ensures
        final(out)@ == old(out)@ + src@,
{
    let n = src.len();
    let mut k: usize = 0;
    while k < n
        invariant
            n == src@.len(),
            0 <= k <= n,
            out@ == old(out)@ + src@.take(k as int),
        decreases n - k,
    {
        out.push(src[k]);
        proof {
            assert(old(out)@ + src@.take(k + 1) =~= (old(out)@ + src@.take(k as int)).push(
                src@[k as int],
            ));
        }
        k = k + 1;
    }
    proof {
        assert(old(out)@ + src@.take(n as int) =~= old(out)@ + src@);
    }
}

/// Builds the report block for one file: a header naming the file, one
/// line per serialized unclassifiable object, and a closing blank line.
pub fn build_file_report(name: &Vec<u8>, entries: &Vec<Vec<u8>>) -> (r: Vec<u8>)
    ensures
        r@ == spec_file_report(name@, entries.deep_view()),
{
    let ghost dv: Seq<Seq<u8>> = entries.deep_view();
    let mut out: Vec<u8> = Vec::new();
    out.push(70);
    out.push(105);
    out.push(108);
    out.push(101);
    out.push(58);
    out.push(32);
    proof {
        assert(out@ =~= spec_header_prefix());
    }
    push_all(&mut out, name);
    out.push(10);
    proof {
        assert(out@ =~= spec_header(name@));
    }
    let n = entries.len();
    let mut k: usize = 0;
    while k < n
        invariant
            n == entries@.len(),
            dv == entries.deep_view(),
            0 <= k <= n,
            out@ == spec_header(name@) + spec_entry_lines(dv.take(k as int)),
        decreases n - k,
    {
        proof {
            assert(dv.take(k + 1).drop_last() =~= dv.take(k as int));
            assert(dv.take(k + 1).last() == dv[k as int]);
            assert(dv[k as int] =~= entries@[k as int]@);
        }
        push_all(&mut out, &entries[k]);
        out.push(10);
        proof {
            assert(out@ =~= spec_header(name@) + spec_entry_lines(dv.take(k + 1)));
        }
        k = k + 1;
    }
    out.push(10);
    proof {
        assert(dv.take(n as int) =~= dv);
        assert(out@ =~= spec_file_report(name@, dv));
    }
    out
}

/// Concatenates the per-file report blocks into the aggregate report, in
/// the order given.
pub fn concat_reports(parts: &Vec<Vec<u8>>) -> (r: Vec<u8>)
    ensures
        r@ == spec_concat(parts.deep_view()),
{
    let ghost dv: Seq<Seq<u8>> = parts.deep_view();
    let mut out: Vec<u8> = Vec::new();
    let n = parts.len();
    let mut k: usize = 0;
    while k < n
        invariant
            n == parts@.len(),
            dv == parts.deep_view(),
            0 <= k <= n,
            out@ == spec_concat(dv.take(k as int)),
        decreases n - k,
    {
        proof {
            assert(dv.take(k + 1).drop_last() =~= dv.take(k as int));
            assert(dv.take(k + 1).last() == dv[k as int]);
            assert(dv[k as int] =~= parts@[k as int]@);
        }
        push_all(&mut out, &parts[k]);
        k = k + 1;
    }
    proof {
        assert(dv.take(n as int) =~= dv);
    }
    out
}

} // verus!
