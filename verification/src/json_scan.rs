//! Locating the end of the first JSON object in a byte buffer.
use vstd::prelude::*;

verus! {

/// The state of the brace scanner after it has read some bytes.
pub struct ScanState {
    pub depth: int,
    pub in_string: bool,
    pub escaped: bool,
}

pub open spec fn scan_start() -> ScanState {
    ScanState { depth: 0, in_string: false, escaped: false }
}

/// One step of the scanner. The arms are tried in order: an unescaped quote
/// toggles the string state, a backslash inside a string toggles the escape
/// state, any other byte after an escape clears it, and braces outside strings
/// open or close a level.
pub open spec fn scan_step(st: ScanState, b: u8) -> ScanState {
    if b == 34u8 && !st.escaped {
        ScanState { in_string: !st.in_string, ..st }
    } else if b == 92u8 && st.in_string {
        ScanState { escaped: !st.escaped, ..st }
    } else if st.escaped {
        ScanState { escaped: false, ..st }
    } else if b == 123u8 && !st.in_string {
        ScanState { depth: st.depth + 1, ..st }
    } else if b == 125u8 && !st.in_string {
        ScanState { depth: st.depth - 1, ..st }
    } else {
        st
    }
}

/// The scanner state after reading all of `s`.
pub open spec fn scan_state(s: Seq<u8>) -> ScanState
    decreases s.len(),
{
    if s.len() == 0 {
        scan_start()
    } else {
        scan_step(scan_state(s.drop_last()), s.last())
    }
}

/// Byte `i` of `s` is a closing brace, outside any string, that brings the
/// nesting depth back to zero.
pub open spec fn closes_object_at(s: Seq<u8>, i: int) -> bool {
    let st = scan_state(s.take(i));
    &&& 0 <= i < s.len()
    &&& s[i] == 125u8
    &&& !st.escaped
    &&& !st.in_string
    &&& st.depth == 1
}

/// The index just after the first closing brace that brings the depth back to
/// zero, if there is one.
pub open spec fn json_object_end(s: Seq<u8>) -> Option<int>
    decreases s.len(),
{
    if s.len() == 0 {
        None
    } else {
        match json_object_end(s.drop_last()) {
            Some(n) => Some(n),
            None => if closes_object_at(s, s.len() - 1) {
                Some(s.len() as int)
            } else {
                None
            },
        }
    }
}

/// The scanner's depth stays within the range of an `i32` until the first
/// object of `s` closes (after which it stops reading).
pub open spec fn depth_fits_until_close(s: Seq<u8>) -> bool {
    forall|k: int| 0 <= k <= s.len() && #[trigger] json_object_end(s.take(k)) is None
        ==> i32::MIN <= scan_state(s.take(k)).depth <= i32::MAX
}

/// The depth after reading `s` is at most the number of bytes read, either way.
pub proof fn lemma_depth_bounded(s: Seq<u8>)
    ensures
        -s.len() <= scan_state(s).depth <= s.len(),
    decreases s.len(),
{
    if s.len() > 0 {
        lemma_depth_bounded(s.drop_last());
    }
}

/// A buffer shorter than `i32::MAX` bytes never takes the depth out of range.
pub proof fn lemma_short_buffer_fits(s: Seq<u8>)
    requires
        s.len() <= i32::MAX,
    ensures
        depth_fits_until_close(s),
{
    assert forall|k: int| 0 <= k <= s.len() && #[trigger] json_object_end(s.take(k)) is None
        implies i32::MIN <= scan_state(s.take(k)).depth <= i32::MAX by {
        lemma_depth_bounded(s.take(k));
    }
}

/// Returns the index just after the closing brace of the first JSON object in
/// `buffer`: braces are counted outside strings, and quotes escaped by a
/// backslash inside a string do not end it. The depth is counted in an `i32`,
/// which must not overflow before the object closes.
pub fn find_json_object_end_bytes(buffer: &[u8]) -> (r: Option<usize>)
    requires
        depth_fits_until_close(buffer@),
    ensures
        r matches Some(n) ==> json_object_end(buffer@) == Some(n as int),
        r is None ==> json_object_end(buffer@) is None,
{
    let mut depth: i32 = 0;
    let mut in_string = false;
    let mut escaped = false;
    let mut i: usize = 0;
    assert(buffer@.take(0) =~= Seq::<u8>::empty());
    while i < buffer.len()
        invariant
            0 <= i <= buffer@.len(),
            depth_fits_until_close(buffer@),
            scan_state(buffer@.take(i as int)) == (ScanState {
                depth: depth as int,
                in_string,
                escaped,
            }),
            json_object_end(buffer@.take(i as int)) is None,
        decreases buffer@.len() - i,
    {
        let byte = buffer[i];
        let ghost prefix = buffer@.take(i as int);
        let ghost next = buffer@.take(i + 1);
        assert(next.drop_last() =~= prefix);
        assert(next.take(i as int) =~= prefix);
        assert(next.last() == byte);
        assert(json_object_end(next) is None <==> !closes_object_at(next, i as int));
        if byte == 34u8 && !escaped {
            in_string = !in_string;
        } else if byte == 92u8 && in_string {
            escaped = !escaped;
        } else if escaped {
            escaped = false;
        } else if byte == 123u8 && !in_string {
            assert(json_object_end(next) is None);
            assert(scan_state(next).depth == depth + 1);
            depth = depth + 1;
        } else if byte == 125u8 && !in_string {
            assert(depth == 1 || json_object_end(next) is None);
            assert(scan_state(next).depth == depth - 1);
            depth = depth - 1;
            if depth == 0 {
                assert(closes_object_at(next, i as int));
                assert(json_object_end(next) == Some(i + 1));
                assert(buffer@.take(buffer@.len() as int) =~= buffer@);
                proof {
                    lemma_json_object_end_extends(next, buffer@.skip(i + 1));
                    assert(next + buffer@.skip(i + 1) =~= buffer@);
                }
                return Some(i + 1);
            }
        }
        assert(!closes_object_at(next, i as int));
        i = i + 1;
    }
    assert(buffer@.take(buffer@.len() as int) =~= buffer@);
    None
}

/// Once a buffer holds a complete first object, appending bytes to it does not
/// change where that object ends.
pub proof fn lemma_json_object_end_extends(s: Seq<u8>, t: Seq<u8>)
    requires
        json_object_end(s) is Some,
    ensures
        json_object_end(s + t) == json_object_end(s),
    decreases t.len(),
{
    if t.len() > 0 {
        let s2 = s + t.drop_last();
        lemma_json_object_end_extends(s, t.drop_last());
        assert((s + t).drop_last() =~= s2);
    }
}

/// Where the first object of a buffer ends: after a closing brace inside the
/// buffer, and the buffer cut there ends at the same place.
pub proof fn lemma_json_object_end_shape(s: Seq<u8>, e: int)
    requires
        json_object_end(s) == Some(e),
    ensures
        1 <= e <= s.len(),
        s[e - 1] == 125u8,
        json_object_end(s.take(e)) == Some(e),
    decreases s.len(),
{
    if json_object_end(s.drop_last()) == Some(e) {
        lemma_json_object_end_shape(s.drop_last(), e);
        assert(s.drop_last().take(e) =~= s.take(e));
    } else {
        assert(e == s.len());
        assert(s.take(e) =~= s);
    }
}

/// The answer depends only on the bytes up to the closing brace: once a
/// buffer holds a complete first object, every extension of it ends that
/// object at the same place, and scanning the extension stays in range.
pub proof fn lemma_extension_keeps_end(s: Seq<u8>, t: Seq<u8>)
    requires
        json_object_end(s) is Some,
        depth_fits_until_close(s),
    ensures
        json_object_end(s + t) == json_object_end(s),
        depth_fits_until_close(s + t),
{
    lemma_json_object_end_extends(s, t);
    let u = s + t;
    assert forall|k: int| 0 <= k <= u.len() && #[trigger] json_object_end(u.take(k)) is None
        implies i32::MIN <= scan_state(u.take(k)).depth <= i32::MAX by {
        if k <= s.len() {
            assert(u.take(k) =~= s.take(k));
        } else {
            assert(u.take(k) =~= s + t.take(k - s.len()));
            lemma_json_object_end_extends(s, t.take(k - s.len()));
        }
    }
}

} // verus!
