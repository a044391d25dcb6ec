use vstd::prelude::*;

verus! {

/// A byte the forwarding-header syntax treats as padding around an entry.
pub open spec fn is_padding(b: u8) -> bool {
    b == 32 || b == 9
}

/// Index of the first comma at or after `i`, or the sequence's length.
pub open spec fn scan_comma(h: Seq<u8>, i: int) -> int
    recommends
        0 <= i <= h.len(),
    decreases h.len() - i,
{
    if i < 0 || i >= h.len() {
        h.len() as int
    } else if h[i] == 44 {
        i
    } else {
        scan_comma(h, i + 1)
    }
}

/// Index of the first non-padding byte in `[i, e)`, or `e`.
pub open spec fn scan_entry_start(h: Seq<u8>, i: int, e: int) -> int
    recommends
        0 <= i <= e <= h.len(),
    decreases e - i,
{
    if i < 0 || i >= e {
        e
    } else if is_padding(h[i]) {
        scan_entry_start(h, i + 1, e)
    } else {
        i
    }
}

/// One past the last non-padding byte in `[a, b)`, or `a`.
pub open spec fn scan_entry_end(h: Seq<u8>, b: int, a: int) -> int
    recommends
        0 <= a <= b <= h.len(),
    decreases b - a,
{
    if b <= a {
        a
    } else if is_padding(h[b - 1]) {
        scan_entry_end(h, b - 1, a)
    } else {
        b
    }
}

/// The requester's origin address as a forwarding header gives it: the
/// header's first comma-separated entry with surrounding padding removed,
/// and nothing when that entry is empty.
pub open spec fn forwarded_origin(h: Seq<u8>) -> Option<Seq<u8>> {
    let e = scan_comma(h, 0);
    let a = scan_entry_start(h, 0, e);
    let b = scan_entry_end(h, e, a);
    if a == e {
        None
    } else {
        Some(h.subrange(a, b))
    }
}

/// Resolve the requester's origin address from the value of the forwarding
/// header: the first comma-separated entry, trimmed of padding. An empty
/// entry resolves nothing, and the caller treats that as an unresolvable
/// origin.
pub fn origin_from_header(header: &Vec<u8>) -> (r: Option<Vec<u8>>)
    ensures
        (r matches Some(v)) <==> forwarded_origin(header@) is Some,
        r matches Some(v) ==> forwarded_origin(header@) == Some(v@),
{
    let mut e: usize = 0;
    while e < header.len() && header[e] != 44
        invariant
            e <= header@.len(),
            scan_comma(header@, 0) == scan_comma(header@, e as int),
        decreases header@.len() - e,
    {
        e = e + 1;
    }
    proof {
        assert(scan_comma(header@, 0) == e);
    }
    let mut a: usize = 0;
    while a < e && (header[a] == 32 || header[a] == 9)
        invariant
            a <= e <= header@.len(),
            scan_entry_start(header@, 0, e as int) == scan_entry_start(header@, a as int, e as int),
        decreases e - a,
    {
        a = a + 1;
    }
    proof {
        assert(scan_entry_start(header@, 0, e as int) == a);
    }
    if a == e {
        return None;
    }
    let mut b: usize = e;
    while b > a && (header[b - 1] == 32 || header[b - 1] == 9)
        invariant
            a < b <= e <= header@.len(),
            !is_padding(header@[a as int]),
            scan_entry_end(header@, e as int, a as int) == scan_entry_end(
                header@,
                b as int,
                a as int,
            ),
        decreases b,
    {
        b = b - 1;
    }
    proof {
        assert(scan_entry_end(header@, e as int, a as int) == b);
        assert(a < b);
    }
    let mut entry: Vec<u8> = Vec::new();
    let mut i: usize = a;
    while i < b
        invariant
            a <= i <= b <= header@.len(),
            entry@ == header@.subrange(a as int, i as int),
        decreases b - i,
    {
        entry.push(header[i]);
        i = i + 1;
        proof {
            assert(entry@ =~= header@.subrange(a as int, i as int));
        }
    }
    Some(entry)
}

} // verus!
