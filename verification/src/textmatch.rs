//! Picking the capture candidate among the enumerated windows: a minimized
//! window is skipped, and both the window title and the application name
//! must contain their fixed needle. The needles are the UTF-8 bytes of the
//! watched game's title and process name.

use vstd::prelude::*;

verus! {

/// `n` occurs in `h` starting at index `i`.
pub open spec fn is_substring_at(h: Seq<u8>, n: Seq<u8>, i: int) -> bool {
    &&& 0 <= i
    &&& i + n.len() <= h.len()
    &&& h.subrange(i, i + n.len()) == n
}

/// `n` occurs somewhere in `h`.
pub open spec fn contains_seq(h: Seq<u8>, n: Seq<u8>) -> bool {
    exists|i: int| is_substring_at(h, n, i)
}

/// `n` occurs at `i` in `h`.
fn match_at(h: &[u8], n: &[u8], i: usize) -> (r: bool)
    requires
        i + n@.len() <= h@.len(),
    ensures
        r == is_substring_at(h@, n@, i as int),
{
    let hl: usize = h.len();
    let mut k: usize = 0;
    while k < n.len()
        invariant
            hl == h@.len(),
            i + n@.len() <= h@.len(),
            k <= n@.len(),
            forall|k2: int| 0 <= k2 < k ==> h@[i + k2] == n@[k2],
        decreases n@.len() - k,
    {
        if h[i + k] != n[k] {
            proof {
                if is_substring_at(h@, n@, i as int) {
                    assert(h@.subrange(i as int, i + n@.len())[k as int] == h@[i + k]);
                }
            }
            return false;
        }
        k = k + 1;
    }
    proof {
        assert(h@.subrange(i as int, i + n@.len()) =~= n@);
    }
    true
}

/// Whether the byte string `n` occurs contiguously anywhere in `h`.
pub fn contains_bytes(h: &[u8], n: &[u8]) -> (r: bool)
    ensures
        r == contains_seq(h@, n@),
{
    if n.len() == 0 {
        proof {
            assert(h@.subrange(0, 0) =~= n@);
            assert(is_substring_at(h@, n@, 0));
        }
        return true;
    }
    if n.len() > h.len() {
        proof {
            assert forall|i: int| !is_substring_at(h@, n@, i) by {}
        }
        return false;
    }
    let end = h.len() - n.len();
    let mut i: usize = 0;
    while i <= end
        invariant
            n@.len() >= 1,
            n@.len() <= h@.len(),
            end == h@.len() - n@.len(),
            end < usize::MAX,
            i <= end + 1,
            forall|i2: int| 0 <= i2 < i ==> !is_substring_at(h@, n@, i2),
        decreases end + 1 - i,
    {
        if match_at(h, n, i) {
            return true;
        }
        i = i + 1;
    }
    proof {
        assert forall|i2: int| !is_substring_at(h@, n@, i2) by {
            if i2 > end as int {
                assert(i2 + n@.len() > h@.len());
            }
        }
    }
    false
}

/// The UTF-8 bytes of the watched game's window-title needle.
pub open spec fn title_needle_seq() -> Seq<u8> {
    seq![0xE5u8, 0x8Eu8, 0x9Fu8, 0xE7u8, 0xA5u8, 0x9Eu8]
}

/// The bytes of the watched game's application-name needle.
pub open spec fn app_needle_seq() -> Seq<u8> {
    seq![0x59u8, 0x75u8, 0x61u8, 0x6Eu8, 0x53u8, 0x68u8, 0x65u8, 0x6Eu8]
}

/// The window-title needle as bytes.
pub fn title_needle() -> (r: Vec<u8>)
    ensures
        r@ == title_needle_seq(),
{
    let mut v: Vec<u8> = Vec::new();
    v.push(0xE5);
    v.push(0x8E);
    v.push(0x9F);
    v.push(0xE7);
    v.push(0xA5);
    v.push(0x9E);
    proof {
        assert(v@ =~= title_needle_seq());
    }
    v
}

/// The application-name needle as bytes.
pub fn app_needle() -> (r: Vec<u8>)
    ensures
        r@ == app_needle_seq(),
{
    let mut v: Vec<u8> = Vec::new();
    v.push(0x59);
    v.push(0x75);
    v.push(0x61);
    v.push(0x6E);
    v.push(0x53);
    v.push(0x68);
    v.push(0x65);
    v.push(0x6E);
    proof {
        assert(v@ =~= app_needle_seq());
    }
    v
}

/// Whether an enumerated window is the one to capture: not minimized, its
/// title containing the title needle and its application name containing
/// the application-name needle, both as UTF-8 bytes.
pub fn is_capture_candidate(minimized: bool, title: &[u8], app_name: &[u8]) -> (r: bool)
    ensures
        r == (!minimized && contains_seq(title@, title_needle_seq()) && contains_seq(
            app_name@,
            app_needle_seq(),
        )),
{
    if minimized {
        return false;
    }
    let tn = title_needle();
    let an = app_needle();
    let in_title = contains_bytes(title, tn.as_slice());
    let in_app = contains_bytes(app_name, an.as_slice());
    in_title && in_app
}

} // verus!
