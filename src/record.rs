use vstd::prelude::*;

verus! {

/// The length in bytes of the whitespace character that starts at byte `i`
/// of the UTF-8 text `s`, or 0 where none starts there. Whitespace is what
/// Unicode calls `White_Space`: U+0009 to U+000D, U+0020, U+0085, U+00A0,
/// U+1680, U+2000 to U+200A, U+2028, U+2029, U+202F, U+205F and U+3000.
pub open spec fn space_len(s: Seq<u8>, i: int) -> int {
    if i < 0 || i >= s.len() {
        0
    } else if s[i] == 0x20 || (0x09 <= s[i] && s[i] <= 0x0D) {
        1
    } else if i + 1 < s.len() && s[i] == 0xC2 && (s[i + 1] == 0x85 || s[i + 1] == 0xA0) {
        2
    } else if i + 2 < s.len() && ((s[i] == 0xE1 && s[i + 1] == 0x9A && s[i + 2] == 0x80) || (
    s[i] == 0xE2 && s[i + 1] == 0x80 && ((0x80 <= s[i + 2] && s[i + 2] <= 0x8A) || s[i + 2]
        == 0xA8 || s[i + 2] == 0xA9 || s[i + 2] == 0xAF)) || (s[i] == 0xE2 && s[i + 1] == 0x81
        && s[i + 2] == 0x9F) || (s[i] == 0xE3 && s[i + 1] == 0x80 && s[i + 2] == 0x80)) {
        3
    } else {
        0
    }
}

/// Reads `s` from byte `i` on, with the fields `done` already complete and
/// `cur` the field being read; gives all fields of `s`.
pub open spec fn scan_fields(s: Seq<u8>, i: int, done: Seq<Seq<u8>>, cur: Seq<u8>) -> Seq<
    Seq<u8>,
>
    decreases s.len() - i,
{
    if i < 0 || i >= s.len() {
        if cur.len() > 0 {
            done.push(cur)
        } else {
            done
        }
    } else if space_len(s, i) > 0 {
        scan_fields(
            s,
            i + space_len(s, i),
            if cur.len() > 0 {
                done.push(cur)
            } else {
                done
            },
            Seq::empty(),
        )
    } else {
        scan_fields(s, i + 1, done, cur.push(s[i]))
    }
}

/// The maximal runs of the UTF-8 text `s` that hold no whitespace, in order.
pub open spec fn fields(s: Seq<u8>) -> Seq<Seq<u8>> {
    scan_fields(s, 0, Seq::empty(), Seq::empty())
}

/// The length of the whitespace character at byte `i`, as `space_len` says.
fn space_len_at(s: &[u8], i: usize) -> (r: usize)
    requires
        i < s@.len(),
    ensures
        r == space_len(s@, i as int),
{
    let n = s.len();
    let b = s[i];
    if b == 0x20 || (0x09 <= b && b <= 0x0D) {
        return 1;
    }
    if n - i > 1 && b == 0xC2 && (s[i + 1] == 0x85 || s[i + 1] == 0xA0) {
        return 2;
    }
    if n - i > 2 {
        let c = s[i + 1];
        let d = s[i + 2];
        if (b == 0xE1 && c == 0x9A && d == 0x80) || (b == 0xE2 && c == 0x80 && ((0x80 <= d && d
            <= 0x8A) || d == 0xA8 || d == 0xA9 || d == 0xAF)) || (b == 0xE2 && c == 0x81 && d
            == 0x9F) || (b == 0xE3 && c == 0x80 && d == 0x80) {
            return 3;
        }
    }
    0
}

/// The fields `fs` joined by single spaces.
pub open spec fn join_spaced(fs: Seq<Seq<u8>>) -> Seq<u8>
    decreases fs.len(),
{
    if fs.len() == 0 {
        Seq::empty()
    } else if fs.len() == 1 {
        fs[0]
    } else {
        join_spaced(fs.drop_last()).push(32u8) + fs.last()
    }
}

pub open spec fn views(vs: Seq<Vec<u8>>) -> Seq<Seq<u8>> {
    vs.map_values(|v: Vec<u8>| v@)
}

/// The two parts of a data line: the category name and the text of its
/// percentage.
pub struct RecordFields {
    pub name: Vec<u8>,
    pub value: Vec<u8>,
}

fn copy_bytes(out: &mut Vec<u8>, src: &Vec<u8>)
    ensures
        final(out)@ == old(out)@ + src@,
{
    let mut k: usize = 0;
    while k < src.len()
        invariant
            k <= src@.len(),
            out@ == old(out)@ + src@.subrange(0, k as int),
        decreases src@.len() - k,
    {
        out.push(src[k]);
        assert(src@.subrange(0, k + 1) =~= src@.subrange(0, k as int).push(src@[k as int]));
        k = k + 1;
    }
    assert(src@.subrange(0, src@.len() as int) =~= src@);
}

/// Splits a data line, UTF-8 text, into its whitespace-separated fields: the last one is
/// the percentage, the ones before it, joined by single spaces, the name.
/// A line with fewer than two fields holds no record.
pub fn split_record_line(line: &[u8]) -> (r: Option<RecordFields>)
    ensures
        r is None <==> fields(line@).len() < 2,
        r matches Some(f) ==> {
            &&& f.name@ == join_spaced(fields(line@).drop_last())
            &&& f.value@ == fields(line@).last()
        },
{
    let n = line.len();
    let mut done: Vec<Vec<u8>> = Vec::new();
    let mut cur: Vec<u8> = Vec::new();
    let mut i: usize = 0;
    assert(views(done@) =~= Seq::<Seq<u8>>::empty());
    assert(cur@ =~= Seq::<u8>::empty());
    while i < n
        invariant
            n == line@.len(),
            i <= n,
            scan_fields(line@, i as int, views(done@), cur@) == fields(line@),
        decreases n - i,
    {
        let k = space_len_at(line, i);
        if k == 0 {
            cur.push(line[i]);
            i = i + 1;
        } else {
            if cur.len() > 0 {
                let ghost before = views(done@);
                let ghost c = cur@;
                done.push(cur);
                cur = Vec::new();
                assert(views(done@) =~= before.push(c));
            }
            assert(cur@ =~= Seq::<u8>::empty());
            i = i + k;
        }
    }
    if cur.len() > 0 {
        let ghost before = views(done@);
        let ghost c = cur@;
        done.push(cur);
        assert(views(done@) =~= before.push(c));
    }
    let m = done.len();
    assert(views(done@) == fields(line@));
    assert(views(done@).len() == m);
    if m < 2 {
        return None;
    }
    let mut name: Vec<u8> = Vec::new();
    let mut k: usize = 0;
    while k < m - 1
        invariant
            m == views(done@).len(),
            m >= 2,
            k <= m - 1,
            name@ == join_spaced(views(done@).subrange(0, k as int)),
        decreases m - 1 - k,
    {
        let ghost fs = views(done@);
        assert(fs.subrange(0, k + 1).drop_last() =~= fs.subrange(0, k as int));
        assert(fs[k as int] == done@[k as int]@);
        if k > 0 {
            name.push(32u8);
        } else {
            assert(fs.subrange(0, 1) =~= seq![fs[0]]);
        }
        copy_bytes(&mut name, &done[k]);
        k = k + 1;
    }
    let ghost fs = views(done@);
    assert(fs.subrange(0, m - 1) =~= fs.drop_last());
    let mut value: Vec<u8> = Vec::new();
    copy_bytes(&mut value, &done[m - 1]);
    assert(fs.last() == done@[m - 1]@);
    assert(value@ =~= fs.last());
    Some(RecordFields { name, value })
}

} // verus!
