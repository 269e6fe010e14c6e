//! How many terminal rows a log message takes in the message column.
use vstd::prelude::*;
use vstd::utf8::encode_utf8;

verus! {

/// The position of the first newline byte in `s`, or `-1` when there is none.
pub open spec fn nl_index(s: Seq<u8>) -> int
    decreases s.len(),
{
    if s.len() == 0 {
        -1
    } else if s[0] == 10u8 {
        0
    } else {
        let r = nl_index(s.drop_first());
        if r < 0 {
            -1
        } else {
            r + 1
        }
    }
}

/// The rows one line of `len` bytes takes in a column `w` cells wide: the length taken as a `u16`
/// (wrapping), divided by the width, plus one.
pub open spec fn line_rows(len: nat, w: nat) -> nat {
    ((len % 65536) / w) + 1
}

/// The rows of a text, line by line. Lines end at `\n`; a `\r` right before a `\n` is not counted;
/// a final line needs no `\n`, and nothing after a final `\n` counts as a line.
pub open spec fn lines_height(s: Seq<u8>, w: nat) -> nat
    decreases s.len(),
{
    if s.len() == 0 {
        0
    } else {
        let k = nl_index(s);
        if 0 <= k < s.len() {
            let l: int = if k > 0 && s[k - 1] == 13u8 {
                k - 1
            } else {
                k
            };
            line_rows(l as nat, w) + lines_height(s.skip(k + 1), w)
        } else {
            line_rows(s.len(), w)
        }
    }
}

/// The rows a message's UTF-8 bytes take in a column `w` wide; a zero-width column counts one row.
pub open spec fn text_height(s: Seq<u8>, w: u16) -> nat {
    if w == 0 {
        1
    } else {
        lines_height(s, w as nat)
    }
}

/// The rows a message takes in a column `w` wide.
pub open spec fn msg_height(msg: Seq<char>, w: u16) -> nat {
    text_height(encode_utf8(msg), w)
}

/// Locates the first newline: when `s[..k]` holds none, `nl_index` is `k` if `s[k]` is one,
/// and `-1` if `k` is the end.
pub proof fn lemma_nl_index(s: Seq<u8>, k: int)
    requires
        0 <= k <= s.len(),
        forall|j: int| 0 <= j < k ==> s[j] != 10u8,
    ensures
        k < s.len() && s[k] == 10u8 ==> nl_index(s) == k,
        k == s.len() ==> nl_index(s) == -1,
    decreases k,
{
    if k > 0 {
        let t = s.drop_first();
        assert forall|j: int| 0 <= j < k - 1 implies t[j] != 10u8 by {
            assert(t[j] == s[j + 1]);
        }
        lemma_nl_index(t, k - 1);
    } else if s.len() > 0 {
    }
}

/// The rows the message `bytes` takes in a column `w` wide, given that they fit in a `u16`.
pub fn bytes_height(b: &[u8], w: u16) -> (r: u16)
    requires
        text_height(b@, w) <= u16::MAX,
    ensures
        r == text_height(b@, w),
{
    if w == 0 {
        return 1;
    }
    let ghost wn: nat = w as nat;
    let ghost total_h = lines_height(b@, wn);
    let mut total: u16 = 0;
    let mut start: usize = 0;
    let mut i: usize = 0;
    assert(b@.skip(0) =~= b@);
    while i < b.len()
        invariant
            w > 0,
            wn == w as nat,
            total_h == lines_height(b@, wn),
            total_h <= u16::MAX,
            start <= i <= b@.len(),
            forall|j: int| start <= j < i ==> b@[j] != 10u8,
            total + lines_height(b@.skip(start as int), wn) == total_h,
        decreases b.len() - i,
    {
        if b[i] == 10u8 {
            let ghost s = b@.skip(start as int);
            let k: usize = i - start;
            proof {
                assert forall|j: int| 0 <= j < k implies s[j] != 10u8 by {
                    assert(s[j] == b@[start + j]);
                }
                assert(s[k as int] == b@[i as int]);
                lemma_nl_index(s, k as int);
                assert(s.skip(k + 1) =~= b@.skip(i + 1));
            }
            let l: usize = if k > 0 && b[i - 1] == 13u8 {
                k - 1
            } else {
                k
            };
            proof {
                if k > 0 {
                    assert(s[k - 1] == b@[i - 1]);
                }
                assert(lines_height(s, wn) == line_rows(l as nat, wn) + lines_height(b@.skip(i + 1), wn));
            }
            let lw: u16 = (l % 65536) as u16;
            total = total + (lw / w + 1);
            start = i + 1;
        }
        i += 1;
    }
    let ghost s = b@.skip(start as int);
    if start < b.len() {
        let n: usize = b.len() - start;
        proof {
            assert forall|j: int| 0 <= j < n implies s[j] != 10u8 by {
                assert(s[j] == b@[start + j]);
            }
            lemma_nl_index(s, n as int);
        }
        let lw: u16 = (n % 65536) as u16;
        total = total + (lw / w + 1);
    } else {
        assert(s.len() == 0);
    }
    total
}

/// The rows a message takes in a column `w` wide, given that they fit in a `u16`.
pub fn str_height(msg: &str, w: u16) -> (r: u16)
    requires
        msg_height(msg@, w) <= u16::MAX,
    ensures
        r == msg_height(msg@, w),
{
    bytes_height(msg.as_bytes(), w)
}


/// Whether the message `bytes` takes at most `bound` rows in a column `w` wide.
pub fn bytes_height_within(b: &[u8], w: u16, bound: u16) -> (r: bool)
    ensures
        r == (text_height(b@, w) <= bound),
{
    if w == 0 {
        return 1 <= bound;
    }
    let ghost wn: nat = w as nat;
    let ghost total_h = lines_height(b@, wn);
    let mut total: u32 = 0;
    let mut start: usize = 0;
    let mut i: usize = 0;
    assert(b@.skip(0) =~= b@);
    while i < b.len()
        invariant
            w > 0,
            wn == w as nat,
            total_h == lines_height(b@, wn),
            start <= i <= b@.len(),
            total <= bound,
            forall|j: int| start <= j < i ==> b@[j] != 10u8,
            total + lines_height(b@.skip(start as int), wn) == total_h,
        decreases b.len() - i,
    {
        if b[i] == 10u8 {
            let ghost s = b@.skip(start as int);
            let k: usize = i - start;
            proof {
                assert forall|j: int| 0 <= j < k implies s[j] != 10u8 by {
                    assert(s[j] == b@[start + j]);
                }
                assert(s[k as int] == b@[i as int]);
                lemma_nl_index(s, k as int);
                assert(s.skip(k + 1) =~= b@.skip(i + 1));
            }
            let l: usize = if k > 0 && b[i - 1] == 13u8 {
                k - 1
            } else {
                k
            };
            proof {
                if k > 0 {
                    assert(s[k - 1] == b@[i - 1]);
                }
                assert(lines_height(s, wn) == line_rows(l as nat, wn) + lines_height(b@.skip(i + 1), wn));
            }
            let lw: u32 = (l % 65536) as u32;
            total = total + (lw / (w as u32) + 1);
            if total > bound as u32 {
                return false;
            }
            start = i + 1;
        }
        i += 1;
    }
    let ghost s = b@.skip(start as int);
    if start < b.len() {
        let n: usize = b.len() - start;
        proof {
            assert forall|j: int| 0 <= j < n implies s[j] != 10u8 by {
                assert(s[j] == b@[start + j]);
            }
            lemma_nl_index(s, n as int);
        }
        let lw: u32 = (n % 65536) as u32;
        total = total + (lw / (w as u32) + 1);
    } else {
        assert(s.len() == 0);
    }
    total <= bound as u32
}

/// Whether a message takes at most `bound` rows in a column `w` wide.
pub fn str_height_within(msg: &str, w: u16, bound: u16) -> (r: bool)
    ensures
        r == (msg_height(msg@, w) <= bound),
{
    bytes_height_within(msg.as_bytes(), w, bound)
}

} // verus!
