//! The one-line status-bar text an error message is shown as.

use vstd::prelude::*;
use vstd::string::*;
use crate::text::{push_char, push_str};

verus! {

/// The longest status-bar message, in characters.
pub const STATUS_MAX_CHARS: usize = 120;

/// `s` on one line: every newline becomes a space.
pub open spec fn one_line(s: Seq<char>) -> Seq<char> {
    s.map_values(|c: char| if c == '\n' { ' ' } else { c })
}

/// The status-bar text of `s`: on one line, and when longer than 120
/// characters its first 117 followed by `...`.
pub open spec fn status_line(s: Seq<char>) -> Seq<char> {
    let c = one_line(s);
    if c.len() > 120 { c.take(117) + seq!['.', '.', '.'] } else { c }
}

/// The status-bar text of an error message (see `status_line`); cut by
/// characters, never inside one.
pub fn status_message(msg: &str) -> (r: String)
    ensures
        r@ == status_line(msg@),
{
    let n = msg.unicode_len();
    let keep = if n > STATUS_MAX_CHARS { 117 } else { n };
    let mut out = String::new();
    let mut i: usize = 0;
    while i < keep
        invariant
            n == msg@.len(),
            keep <= n,
            i <= keep,
            out@ == one_line(msg@).take(i as int),
        decreases keep - i,
    {
        let c = msg.get_char(i);
        push_char(&mut out, if c == '\n' { ' ' } else { c });
        assert(one_line(msg@).take(i + 1) =~= one_line(msg@).take(i as int).push(if c == '\n' { ' ' } else { c }));
        i = i + 1;
    }
    if n > STATUS_MAX_CHARS {
        push_str(&mut out, "...");
        proof {
            reveal_strlit("...");
            assert(out@ =~= one_line(msg@).take(117) + seq!['.', '.', '.']);
        }
    } else {
        assert(one_line(msg@).take(n as int) =~= one_line(msg@));
    }
    out
}

/// Whatever the message, the status bar shows one line of at most 120
/// characters; a message that already fits is shown unchanged, and a longer
/// one ends in `...`.
pub proof fn law_status_line_is_one_short_line(s: Seq<char>)
    ensures
        status_line(s).len() <= 120,
        !status_line(s).contains('\n'),
        s.len() <= 120 && !s.contains('\n') ==> status_line(s) == s,
        s.len() > 120 ==> status_line(s).skip(117) == seq!['.', '.', '.'],
{
    let c = one_line(s);
    assert(!c.contains('\n'));
    if c.len() > 120 {
        let r = c.take(117) + seq!['.', '.', '.'];
        assert(r.skip(117) =~= seq!['.', '.', '.']);
        if r.contains('\n') {
            let i = choose|i: int| 0 <= i < r.len() && r[i] == '\n';
            assert(i < 117 ==> r[i] == c[i]);
        }
    }
    if s.len() <= 120 && !s.contains('\n') {
        assert forall|i: int| 0 <= i < s.len() implies c[i] == s[i] by {
            assert(s[i] != '\n');
        }
        assert(c =~= s);
    }
}

} // verus!
