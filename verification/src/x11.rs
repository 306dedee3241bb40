use vstd::prelude::*;

use crate::clipboard::{ClearOutcome, CopyOutcome};

verus! {

/// The kind of Linux desktop session.
#[derive(Clone, Copy, Debug, Eq, PartialEq)]
pub enum LinuxSession {
    X11,
    Wayland,
    Unavailable,
}

/// An ASCII decimal digit.
pub open spec fn is_digit(c: char) -> bool {
    '0' <= c && c <= '9'
}

/// A non-empty run of decimal digits.
pub open spec fn numeral(s: Seq<char>) -> bool {
    s.len() > 0 && forall|i: int| 0 <= i < s.len() ==> is_digit(#[trigger] s[i])
}

/// A display number, optionally followed by a dot and a screen number.
pub open spec fn local_address(a: Seq<char>) -> bool {
    ||| numeral(a)
    ||| exists|k: int|
        0 <= k < a.len() && a[k] == '.' && #[trigger] numeral(a.take(k)) && numeral(a.skip(k + 1))
}

/// `:`, `unix:` or `unix/:` followed by a local address: a display reached
/// through a local socket, never over the network.
pub open spec fn local_display(d: Seq<char>) -> bool {
    ||| d.len() >= 1 && d[0] == ':' && local_address(d.skip(1))
    ||| d.len() >= 5 && d.take(5) == seq!['u', 'n', 'i', 'x', ':'] && local_address(d.skip(5))
    ||| d.len() >= 6 && d.take(6) == seq!['u', 'n', 'i', 'x', '/', ':'] && local_address(
        d.skip(6),
    )
}

fn char_is_digit(c: char) -> (r: bool)
    ensures
        r == is_digit(c),
{
    '0' <= c && c <= '9'
}

fn digits_between(s: &str, start: usize, end: usize) -> (r: bool)
    requires
        start <= end <= s@.len(),
    ensures
        r == numeral(s@.subrange(start as int, end as int)),
{
    if start == end {
        return false;
    }
    let mut i = start;
    while i < end
        invariant
            start <= i <= end <= s@.len(),
            forall|j: int| start <= j < i ==> is_digit(#[trigger] s@[j]),
        decreases end - i,
    {
        if !char_is_digit(s.get_char(i)) {
            assert(!is_digit(s@.subrange(start as int, end as int)[i - start]));
            return false;
        }
        i = i + 1;
    }
    assert forall|j: int| 0 <= j < end - start implies is_digit(
        #[trigger] s@.subrange(start as int, end as int)[j],
    ) by {
        assert(s@.subrange(start as int, end as int)[j] == s@[start + j]);
    }
    true
}

fn address_is_local(s: &str, start: usize) -> (r: bool)
    requires
        start <= s@.len(),
    ensures
        r == local_address(s@.skip(start as int)),
{
    let ghost a = s@.skip(start as int);
    let len = s.unicode_len();
    let mut k = start;
    while k < len
        invariant
            start <= k <= len,
            len == s@.len(),
            a == s@.skip(start as int),
            forall|j: int| start <= j < k ==> s@[j] != '.',
        ensures
            start <= k <= len,
            forall|j: int| start <= j < k ==> s@[j] != '.',
            k < len ==> s@[k as int] == '.',
        decreases len - k,
    {
        if s.get_char(k) == '.' {
            break;
        }
        k = k + 1;
    }
    if k == len {
        let r = digits_between(s, start, len);
        assert(s@.subrange(start as int, len as int) =~= a);
        assert forall|m: int| 0 <= m < a.len() && a[m] == '.' implies !#[trigger] numeral(a.take(m))
            || !numeral(a.skip(m + 1)) by {
            assert(a[m] == s@[start + m]);
        }
        return r;
    }
    let first = digits_between(s, start, k);
    let second = digits_between(s, k + 1, len);
    let ghost d = (k - start) as int;
    assert(s@.subrange(start as int, k as int) =~= a.take(d));
    assert(s@.subrange(k + 1, len as int) =~= a.skip(d + 1));
    assert(a[d] == '.');
    assert(!numeral(a)) by {
        assert(!is_digit(a[d]));
    }
    assert forall|m: int| 0 <= m < a.len() && a[m] == '.' && m != d implies !#[trigger] numeral(
        a.take(m),
    ) || !numeral(a.skip(m + 1)) by {
        if m < d {
            assert(a[m] == s@[start + m]);
        } else {
            assert(a.take(m)[d] == '.');
            assert(!is_digit(a.take(m)[d]));
        }
    }
    first && second
}

/// Whether `display` names an X display reached through a local socket.
/// An absent display is not local.
pub fn x11_display_is_local(display: Option<&str>) -> (local: bool)
    ensures
        local == match display {
            Some(d) => local_display(d@),
            None => false,
        },
{
    let display = match display {
        Some(display) => display,
        None => return false,
    };
    let len = display.unicode_len();
    if len >= 1 && display.get_char(0) == ':' {
        assert(!(display@.len() >= 5 && display@.take(5) == seq!['u', 'n', 'i', 'x', ':'])) by {
            if display@.len() >= 5 && display@.take(5) == seq!['u', 'n', 'i', 'x', ':'] {
                assert(display@.take(5)[0] == 'u');
            }
        }
        assert(!(display@.len() >= 6 && display@.take(6) == seq!['u', 'n', 'i', 'x', '/', ':'])) by {
            if display@.len() >= 6 && display@.take(6) == seq!['u', 'n', 'i', 'x', '/', ':'] {
                assert(display@.take(6)[0] == 'u');
            }
        }
        return address_is_local(display, 1);
    }
    let unix = len >= 5 && display.get_char(0) == 'u' && display.get_char(1) == 'n'
        && display.get_char(2) == 'i' && display.get_char(3) == 'x';
    if unix && display.get_char(4) == ':' {
        assert(display@.take(5) =~= seq!['u', 'n', 'i', 'x', ':']);
        assert(!(display@.len() >= 6 && display@.take(6) == seq!['u', 'n', 'i', 'x', '/', ':'])) by {
            if display@.len() >= 6 && display@.take(6) == seq!['u', 'n', 'i', 'x', '/', ':'] {
                assert(display@.take(6)[4] == '/');
            }
        }
        return address_is_local(display, 5);
    }
    if unix && len >= 6 && display.get_char(4) == '/' && display.get_char(5) == ':' {
        assert(display@.take(6) =~= seq!['u', 'n', 'i', 'x', '/', ':']);
        assert(!(display@.len() >= 5 && display@.take(5) == seq!['u', 'n', 'i', 'x', ':'])) by {
            if display@.len() >= 5 && display@.take(5) == seq!['u', 'n', 'i', 'x', ':'] {
                assert(display@.take(5)[4] == ':');
            }
        }
        return address_is_local(display, 6);
    }
    proof {
        if display@.len() >= 5 && display@.take(5) == seq!['u', 'n', 'i', 'x', ':'] {
            assert(display@.take(5)[0] == 'u');
            assert(display@.take(5)[1] == 'n');
            assert(display@.take(5)[2] == 'i');
            assert(display@.take(5)[3] == 'x');
            assert(display@.take(5)[4] == ':');
        }
        if display@.len() >= 6 && display@.take(6) == seq!['u', 'n', 'i', 'x', '/', ':'] {
            assert(display@.take(6)[0] == 'u');
            assert(display@.take(6)[1] == 'n');
            assert(display@.take(6)[2] == 'i');
            assert(display@.take(6)[3] == 'x');
            assert(display@.take(6)[4] == '/');
            assert(display@.take(6)[5] == ':');
        }
    }
    false
}

/// A character with the Unicode `White_Space` property, as
/// `char::is_whitespace` documents it.
pub open spec fn is_whitespace(c: char) -> bool {
    ||| '\u{9}' <= c && c <= '\u{d}'
    ||| c == ' '
    ||| c == '\u{85}'
    ||| c == '\u{a0}'
    ||| c == '\u{1680}'
    ||| '\u{2000}' <= c && c <= '\u{200a}'
    ||| c == '\u{2028}'
    ||| c == '\u{2029}'
    ||| c == '\u{202f}'
    ||| c == '\u{205f}'
    ||| c == '\u{3000}'
}

/// `s` without leading whitespace.
pub open spec fn trim_start(s: Seq<char>) -> Seq<char>
    decreases s.len(),
{
    if s.len() > 0 && is_whitespace(s[0]) {
        trim_start(s.drop_first())
    } else {
        s
    }
}

/// `s` without trailing whitespace.
pub open spec fn trim_end(s: Seq<char>) -> Seq<char>
    decreases s.len(),
{
    if s.len() > 0 && is_whitespace(s.last()) {
        trim_end(s.drop_last())
    } else {
        s
    }
}

/// `s` without leading and trailing whitespace.
pub open spec fn trimmed(s: Seq<char>) -> Seq<char> {
    trim_end(trim_start(s))
}

/// The ASCII lower-case form of `c`; other characters are unchanged.
pub open spec fn ascii_lower(c: char) -> char {
    if 'A' <= c && c <= 'Z' {
        ((c as u32) + 32) as char
    } else {
        c
    }
}

/// `a` and `b` are equal when ASCII letters are compared without case.
pub open spec fn eq_ignore_ascii_case(a: Seq<char>, b: Seq<char>) -> bool {
    a.len() == b.len() && forall|k: int| 0 <= k < a.len() ==> ascii_lower(#[trigger] a[k]) == ascii_lower(b[k])
}

/// The session kind. A Wayland display or session type means Wayland, even
/// when an X display is also present; otherwise a local X display with no
/// session type, or the type `x11`, means X11; anything else is
/// unavailable. The session type is read without surrounding whitespace and
/// without ASCII case; a blank type counts as none.
pub open spec fn session_kind(
    wayland_display_present: bool,
    session_type: Option<Seq<char>>,
    local_display_present: bool,
) -> LinuxSession {
    let kind = match session_type {
        Some(v) => if trimmed(v).len() > 0 {
            Some(trimmed(v))
        } else {
            None
        },
        None => None,
    };
    if wayland_display_present || (kind matches Some(v) && eq_ignore_ascii_case(
        v,
        seq!['w', 'a', 'y', 'l', 'a', 'n', 'd'],
    )) {
        LinuxSession::Wayland
    } else if !local_display_present {
        LinuxSession::Unavailable
    } else {
        match kind {
            None => LinuxSession::X11,
            Some(v) => if eq_ignore_ascii_case(v, seq!['x', '1', '1']) {
                LinuxSession::X11
            } else {
                LinuxSession::Unavailable
            },
        }
    }
}

fn char_is_whitespace(c: char) -> (r: bool)
    ensures
        r == is_whitespace(c),
{
    ('\u{9}' <= c && c <= '\u{d}') || c == ' ' || c == '\u{85}' || c == '\u{a0}' || c == '\u{1680}'
        || ('\u{2000}' <= c && c <= '\u{200a}') || c == '\u{2028}' || c == '\u{2029}' || c
        == '\u{202f}' || c == '\u{205f}' || c == '\u{3000}'
}

fn char_ascii_lower(c: char) -> (r: char)
    ensures
        r == ascii_lower(c),
{
    if 'A' <= c && c <= 'Z' {
        let code = (c as u8) + 32;
        code as char
    } else {
        c
    }
}

/// The bounds of `s` without surrounding whitespace.
fn trim_bounds(s: &str) -> (bounds: (usize, usize))
    ensures
        bounds.0 <= bounds.1 <= s@.len(),
        s@.subrange(bounds.0 as int, bounds.1 as int) == trimmed(s@),
{
    let len = s.unicode_len();
    let mut i: usize = 0;
    assert(s@.subrange(0, len as int) =~= s@);
    while i < len && char_is_whitespace(s.get_char(i))
        invariant
            i <= len,
            len == s@.len(),
            trim_start(s@) == trim_start(s@.subrange(i as int, len as int)),
        decreases len - i,
    {
        assert(s@.subrange(i as int, len as int).drop_first() =~= s@.subrange(i + 1, len as int));
        i = i + 1;
    }
    assert(trim_start(s@.subrange(i as int, len as int)) == s@.subrange(i as int, len as int));
    let mut j: usize = len;
    while j > i && char_is_whitespace(s.get_char(j - 1))
        invariant
            i <= j <= len,
            len == s@.len(),
            trim_start(s@) == s@.subrange(i as int, len as int),
            trim_end(s@.subrange(i as int, len as int)) == trim_end(s@.subrange(i as int, j as int)),
        decreases j - i,
    {
        assert(s@.subrange(i as int, j as int).drop_last() =~= s@.subrange(i as int, j - 1));
        j = j - 1;
    }
    assert(trim_end(s@.subrange(i as int, j as int)) == s@.subrange(i as int, j as int));
    (i, j)
}

fn range_eq_ignore_ascii_case(s: &str, start: usize, end: usize, word: &[char]) -> (r: bool)
    requires
        start <= end <= s@.len(),
    ensures
        r == eq_ignore_ascii_case(s@.subrange(start as int, end as int), word@),
{
    if end - start != word.len() {
        return false;
    }
    let mut k: usize = 0;
    while k < word.len()
        invariant
            k <= word@.len(),
            end - start == word@.len(),
            start <= end <= s@.len(),
            forall|m: int| 0 <= m < k ==> ascii_lower(#[trigger] s@[start + m]) == ascii_lower(word@[m]),
        decreases word@.len() - k,
    {
        if char_ascii_lower(s.get_char(start + k)) != char_ascii_lower(word[k]) {
            assert(s@.subrange(start as int, end as int)[k as int] == s@[start + k]);
            return false;
        }
        k = k + 1;
    }
    assert forall|m: int| 0 <= m < word@.len() implies ascii_lower(
        #[trigger] s@.subrange(start as int, end as int)[m],
    ) == ascii_lower(word@[m]) by {
        assert(s@.subrange(start as int, end as int)[m] == s@[start + m]);
    }
    true
}

/// Classifies the session; Wayland never falls back to XWayland.
pub fn classify_linux_session(
    wayland_display_present: bool,
    xdg_session_type: Option<&str>,
    local_display_present: bool,
) -> (session: LinuxSession)
    ensures
        session == session_kind(
            wayland_display_present,
            match xdg_session_type {
                Some(v) => Some(v@),
                None => None,
            },
            local_display_present,
        ),
{
    let wayland_word = ['w', 'a', 'y', 'l', 'a', 'n', 'd'];
    let x11_word = ['x', '1', '1'];
    assert(wayland_word@ =~= seq!['w', 'a', 'y', 'l', 'a', 'n', 'd']);
    assert(x11_word@ =~= seq!['x', '1', '1']);
    let (kind_present, is_wayland, is_x11) = match xdg_session_type {
        Some(value) => {
            let (start, end) = trim_bounds(value);
            if start == end {
                (false, false, false)
            } else {
                (
                    true,
                    range_eq_ignore_ascii_case(value, start, end, wayland_word.as_slice()),
                    range_eq_ignore_ascii_case(value, start, end, x11_word.as_slice()),
                )
            }
        },
        None => (false, false, false),
    };
    if wayland_display_present || (kind_present && is_wayland) {
        return LinuxSession::Wayland;
    }
    if !local_display_present {
        return LinuxSession::Unavailable;
    }
    if !kind_present || is_x11 {
        LinuxSession::X11
    } else {
        LinuxSession::Unavailable
    }
}

/// The X atoms of the clipboard targets this application serves.
#[derive(Clone, Copy, Debug, Eq, PartialEq)]
pub struct X11TargetAtoms {
    pub targets: u32,
    pub utf8_string: u32,
    pub text: u32,
    pub string: u32,
    pub text_plain_utf8: u32,
    pub text_plain: u32,
    pub kde_hint: u32,
    pub save_targets: u32,
}

/// How to answer a request for one target.
#[derive(Clone, Copy, Debug, Eq, PartialEq)]
pub enum X11TargetReply {
    Targets,
    Text(u32),
    Hint,
    Reject,
}

/// The answer to a request for `target`: clipboard managers asking to save
/// the content are refused; `TEXT` is served as `UTF8_STRING`; unknown
/// targets are refused.
pub open spec fn target_reply(atoms: X11TargetAtoms, target: u32) -> X11TargetReply {
    if target == atoms.save_targets {
        X11TargetReply::Reject
    } else if target == atoms.targets {
        X11TargetReply::Targets
    } else if target == atoms.kde_hint {
        X11TargetReply::Hint
    } else if target == atoms.text {
        X11TargetReply::Text(atoms.utf8_string)
    } else if target == atoms.utf8_string || target == atoms.string || target
        == atoms.text_plain_utf8 || target == atoms.text_plain {
        X11TargetReply::Text(target)
    } else {
        X11TargetReply::Reject
    }
}

impl X11TargetAtoms {
    /// The targets offered to requestors, in order; `SAVE_TARGETS` is not
    /// among them.
    pub fn offered(self) -> (atoms: [u32; 7])
        ensures
            atoms@ == seq![
                self.targets,
                self.utf8_string,
                self.text,
                self.string,
                self.text_plain_utf8,
                self.text_plain,
                self.kde_hint,
            ],
    {
        let atoms = [
            self.targets,
            self.utf8_string,
            self.text,
            self.string,
            self.text_plain_utf8,
            self.text_plain,
            self.kde_hint,
        ];
        assert(atoms@ =~= seq![
            self.targets,
            self.utf8_string,
            self.text,
            self.string,
            self.text_plain_utf8,
            self.text_plain,
            self.kde_hint,
        ]);
        atoms
    }

    /// How to answer a request for `target`.
    pub fn reply_for(self, target: u32) -> (reply: X11TargetReply)
        ensures
            reply == target_reply(self, target),
    {
        if target == self.save_targets {
            X11TargetReply::Reject
        } else if target == self.targets {
            X11TargetReply::Targets
        } else if target == self.kde_hint {
            X11TargetReply::Hint
        } else if target == self.text {
            X11TargetReply::Text(self.utf8_string)
        } else if target == self.utf8_string || target == self.string || target
            == self.text_plain_utf8 || target == self.text_plain {
            X11TargetReply::Text(target)
        } else {
            X11TargetReply::Reject
        }
    }
}

/// The eight atoms name eight different targets, as interned atoms of
/// different names do.
pub open spec fn atoms_distinct(atoms: X11TargetAtoms) -> bool {
    let all = seq![
        atoms.targets,
        atoms.utf8_string,
        atoms.text,
        atoms.string,
        atoms.text_plain_utf8,
        atoms.text_plain,
        atoms.kde_hint,
        atoms.save_targets,
    ];
    forall|i: int, j: int| 0 <= i < j < 8 ==> all[i] != all[j]
}

/// With distinct atoms, every text target is served as itself, `TEXT` as
/// `UTF8_STRING`, `TARGETS` with the target list and the KDE hint with the
/// hint; `SAVE_TARGETS` and every target outside the offered list are
/// refused; no offered target is refused.
pub proof fn lemma_offered_targets_are_served(atoms: X11TargetAtoms, target: u32)
    requires
        atoms_distinct(atoms),
    ensures
        target_reply(atoms, atoms.utf8_string) == X11TargetReply::Text(atoms.utf8_string),
        target_reply(atoms, atoms.string) == X11TargetReply::Text(atoms.string),
        target_reply(atoms, atoms.text_plain_utf8) == X11TargetReply::Text(atoms.text_plain_utf8),
        target_reply(atoms, atoms.text_plain) == X11TargetReply::Text(atoms.text_plain),
        target_reply(atoms, atoms.text) == X11TargetReply::Text(atoms.utf8_string),
        target_reply(atoms, atoms.targets) == X11TargetReply::Targets,
        target_reply(atoms, atoms.kde_hint) == X11TargetReply::Hint,
        target_reply(atoms, atoms.save_targets) == X11TargetReply::Reject,
        (target_reply(atoms, target) == X11TargetReply::Reject) <== !seq![
            atoms.targets,
            atoms.utf8_string,
            atoms.text,
            atoms.string,
            atoms.text_plain_utf8,
            atoms.text_plain,
            atoms.kde_hint,
        ].contains(target),
        seq![
            atoms.targets,
            atoms.utf8_string,
            atoms.text,
            atoms.string,
            atoms.text_plain_utf8,
            atoms.text_plain,
            atoms.kde_hint,
        ].contains(target) ==> target_reply(atoms, target) != X11TargetReply::Reject,
{
    let all = seq![
        atoms.targets,
        atoms.utf8_string,
        atoms.text,
        atoms.string,
        atoms.text_plain_utf8,
        atoms.text_plain,
        atoms.kde_hint,
        atoms.save_targets,
    ];
    assert(all[0] != all[7] && all[1] != all[7] && all[2] != all[7] && all[3] != all[7]);
    assert(all[4] != all[7] && all[5] != all[7] && all[6] != all[7]);
    assert(all[0] != all[1] && all[0] != all[3] && all[0] != all[4] && all[0] != all[5]);
    assert(all[6] != all[1] && all[6] != all[3] && all[6] != all[4] && all[6] != all[5]);
    assert(all[2] != all[1] && all[2] != all[3] && all[2] != all[4] && all[2] != all[5]);
    assert(all[0] != all[2] && all[0] != all[6] && all[2] != all[6]);
    let offered = seq![
        atoms.targets,
        atoms.utf8_string,
        atoms.text,
        atoms.string,
        atoms.text_plain_utf8,
        atoms.text_plain,
        atoms.kde_hint,
    ];
    if offered.contains(target) {
        let i = choose|i: int| 0 <= i < offered.len() && offered[i] == target;
        assert(offered[i] == all[i]);
    } else {
        assert(target != offered[0] && target != offered[1] && target != offered[2]);
        assert(target != offered[3] && target != offered[4] && target != offered[5]);
        assert(target != offered[6]);
    }
}

/// Names one X11 selection lease: its number and its owner window.
#[derive(Clone, Copy, Debug, Eq, PartialEq)]
pub struct X11LeaseToken {
    pub lease_id: u64,
    pub window: u32,
}

/// A clear request matches only the active lease, by number and window.
pub fn x11_token_matches(active: Option<X11LeaseToken>, requested: X11LeaseToken) -> (r: bool)
    ensures
        r == (active == Some(requested)),
{
    match active {
        Some(token) => token.lease_id == requested.lease_id && token.window == requested.window,
        None => false,
    }
}

/// The property a selection reply is written to: the requested one, or the
/// target itself when the requestor named none (the X protocol's `None`, 0).
pub fn reply_property(requested_property: u32, target: u32) -> (property: u32)
    ensures
        property == if requested_property == 0 {
            target
        } else {
            requested_property
        },
{
    if requested_property == 0 {
        target
    } else {
        requested_property
    }
}

/// What the X server answered about a new window's claim on the clipboard.
#[derive(Clone, Copy, Debug, Eq, PartialEq)]
pub enum X11OwnerCheck {
    /// The claim was refused while the connection still works.
    Refused,
    /// The claim's reply was lost with the connection.
    Lost,
    /// The clipboard's owner as queried afterwards, if the query answered.
    Owner(Option<u32>),
}

/// How a copy continues once the owner check is in.
#[derive(Debug)]
pub enum X11CopyStep {
    /// The copy is over with `outcome`; the windows in `destroy` are
    /// destroyed without waiting for the server.
    Finished { outcome: CopyOutcome<X11LeaseToken>, destroy: (Option<u32>, Option<u32>) },
    /// The copy committed; the previous lease's `window` must be destroyed
    /// and its destruction confirmed (see `previous_destroyed`).
    DestroyPrevious { window: u32 },
}

/// How a clear continues once the clipboard's owner is known.
#[derive(Clone, Copy, Debug, Eq, PartialEq)]
pub enum X11ClearStep {
    /// The clear is over with `outcome`; `destroy` is destroyed without
    /// waiting for the server.
    Finished { outcome: ClearOutcome, destroy: Option<u32> },
    /// The lease was released; its `window` must be destroyed and the
    /// destruction confirmed (see `clear_destroyed`).
    DestroyOwned { window: u32 },
}

/// The bookkeeping of the X11 selection owner: the active lease, if any, and
/// the number the next lease gets.
pub struct X11SelectionView {
    pub active: Option<X11LeaseToken>,
    pub next_lease_id: u64,
}

/// The X11 clipboard owner's leases. Each lease has its own window; the
/// content `P` it serves is kept beside its token.
pub struct X11Selection<P> {
    active: Option<(X11LeaseToken, P)>,
    next_lease_id: u64,
}

impl<P> vstd::view::View for X11Selection<P> {
    type V = X11SelectionView;

    closed spec fn view(&self) -> X11SelectionView {
        X11SelectionView {
            active: match self.active {
                Some((token, _)) => Some(token),
                None => None,
            },
            next_lease_id: self.next_lease_id,
        }
    }
}

impl<P> X11Selection<P> {
    /// The content served by the active lease.
    pub closed spec fn payload(&self) -> Option<P> {
        match self.active {
            Some((_, payload)) => Some(payload),
            None => None,
        }
    }

    /// No lease yet; the first lease is number 1.
    pub fn new() -> (selection: Self)
        ensures
            selection@ == (X11SelectionView { active: None, next_lease_id: 1 }),
    {
        X11Selection { active: None, next_lease_id: 1 }
    }

    /// The active lease's token.
    pub fn active(&self) -> (token: Option<X11LeaseToken>)
        ensures
            token == self@.active,
    {
        match &self.active {
            Some((token, _)) => Some(*token),
            None => None,
        }
    }

    /// The token for a lease on the new `window`, numbered with the next
    /// lease number, which then advances, wrapping.
    pub fn issue_token(&mut self, window: u32) -> (token: X11LeaseToken)
        ensures
            token == (X11LeaseToken { lease_id: old(self)@.next_lease_id, window }),
            final(self)@ == (X11SelectionView {
                next_lease_id: if old(self)@.next_lease_id == u64::MAX {
                    0
                } else {
                    (old(self)@.next_lease_id + 1) as u64
                },
                ..old(self)@
            }),
            final(self).payload() == old(self).payload(),
    {
        let token = X11LeaseToken { lease_id: self.next_lease_id, window };
        self.next_lease_id = self.next_lease_id.wrapping_add(1);
        token
    }

    /// Drops the active lease and answers its window, to be destroyed.
    pub fn take_active(&mut self) -> (window: Option<u32>)
        ensures
            final(self)@ == (X11SelectionView { active: None, ..old(self)@ }),
            window == match old(self)@.active {
                Some(t) => Some(t.window),
                None => None::<u32>,
            },
    {
        match self.active.take() {
            Some((token, _)) => Some(token.window),
            None => None,
        }
    }

    fn install(&mut self, token: X11LeaseToken, payload: P) -> (previous: Option<u32>)
        ensures
            final(self)@ == (X11SelectionView { active: Some(token), ..old(self)@ }),
            final(self).payload() == Some(payload),
            previous == match old(self)@.active {
                Some(t) => Some(t.window),
                None => None::<u32>,
            },
    {
        let previous = self.take_active();
        self.active = Some((token, payload));
        previous
    }

    /// Settles a copy under `token`, whose window was created and asked to
    /// own the clipboard, given what the server answered.
    ///
    /// A refused claim fails before commit and the new window goes. A lost
    /// reply or an unknown owner may have committed: the lease is kept as
    /// uncertain, replacing the previous one. Another owner means the
    /// clipboard was taken meanwhile: both the new and the active lease go.
    /// Ownership confirmed, the lease becomes active and the previous lease's
    /// window must be destroyed before the copy counts as committed.
    pub fn settle_copy(&mut self, token: X11LeaseToken, payload: P, check: X11OwnerCheck) -> (step:
        X11CopyStep)
        ensures
            final(self)@.next_lease_id == old(self)@.next_lease_id,
            ({
                let previous = match old(self)@.active {
                    Some(t) => Some(t.window),
                    None => None::<u32>,
                };
                match check {
                    X11OwnerCheck::Refused => step == (X11CopyStep::Finished {
                        outcome: CopyOutcome::PreCommitFailure,
                        destroy: (Some(token.window), None),
                    }) && final(self)@ == old(self)@ && final(self).payload() == old(self).payload(),
                    X11OwnerCheck::Lost | X11OwnerCheck::Owner(None) => step == (X11CopyStep::Finished {
                        outcome: CopyOutcome::CommitUncertain(Some(token)),
                        destroy: (previous, None),
                    }) && final(self)@.active == Some(token) && final(self).payload() == Some(payload),
                    X11OwnerCheck::Owner(Some(owner)) => if owner != token.window {
                        step == (X11CopyStep::Finished {
                            outcome: CopyOutcome::DestructiveFailure,
                            destroy: (Some(token.window), previous),
                        }) && final(self)@.active is None
                    } else {
                        &&& final(self)@.active == Some(token)
                        &&& final(self).payload() == Some(payload)
                        &&& match previous {
                            Some(w) => step == X11CopyStep::DestroyPrevious { window: w },
                            None => step == (X11CopyStep::Finished {
                                outcome: CopyOutcome::Committed(token),
                                destroy: (None, None),
                            }),
                        }
                    },
                }
            }),
    {
        match check {
            X11OwnerCheck::Refused => X11CopyStep::Finished {
                outcome: CopyOutcome::PreCommitFailure,
                destroy: (Some(token.window), None),
            },
            X11OwnerCheck::Lost => {
                let previous = self.install(token, payload);
                X11CopyStep::Finished {
                    outcome: CopyOutcome::CommitUncertain(Some(token)),
                    destroy: (previous, None),
                }
            },
            X11OwnerCheck::Owner(None) => {
                let previous = self.install(token, payload);
                X11CopyStep::Finished {
                    outcome: CopyOutcome::CommitUncertain(Some(token)),
                    destroy: (previous, None),
                }
            },
            X11OwnerCheck::Owner(Some(owner)) => {
                if owner != token.window {
                    let previous = self.take_active();
                    X11CopyStep::Finished {
                        outcome: CopyOutcome::DestructiveFailure,
                        destroy: (Some(token.window), previous),
                    }
                } else {
                    match self.install(token, payload) {
                        Some(window) => X11CopyStep::DestroyPrevious { window },
                        None => X11CopyStep::Finished {
                            outcome: CopyOutcome::Committed(token),
                            destroy: (None, None),
                        },
                    }
                }
            },
        }
    }

    /// The content to serve to a request naming `owner` as the clipboard's
    /// owner: only the active lease's window serves, and only for the
    /// clipboard selection.
    pub fn served(&self, for_clipboard: bool, owner: u32) -> (payload: Option<&P>)
        ensures
            (self@.active matches Some(t) && for_clipboard && t.window == owner) ==> (payload
                matches Some(p) && self.payload() == Some(*p)),
            !(self@.active matches Some(t) && for_clipboard && t.window == owner) ==> payload
                is None,
    {
        match &self.active {
            Some((token, payload)) => if for_clipboard && token.window == owner {
                Some(payload)
            } else {
                None
            },
            None => None,
        }
    }

    /// Another client took the clipboard from `owner`: if that was the active
    /// lease's window, the lease ends and its window is to be destroyed.
    pub fn selection_cleared(&mut self, for_clipboard: bool, owner: u32) -> (window: Option<u32>)
        ensures
            (old(self)@.active matches Some(t) && for_clipboard && t.window == owner) ==> {
                &&& window == Some(owner)
                &&& final(self)@ == (X11SelectionView { active: None, ..old(self)@ })
            },
            !(old(self)@.active matches Some(t) && for_clipboard && t.window == owner) ==> {
                &&& window is None
                &&& final(self)@ == old(self)@
                &&& final(self).payload() == old(self).payload()
            },
    {
        let matches_active = match &self.active {
            Some((token, _)) => for_clipboard && token.window == owner,
            None => false,
        };
        if matches_active {
            self.take_active()
        } else {
            None
        }
    }

    /// Begins clearing the lease `requested`, given the clipboard's owner
    /// as the server reported it. Only the active lease, matched by number
    /// and window, is cleared: any other is no longer ours. With no owner
    /// reported the connection failed; with another owner the content is no
    /// longer ours; either way the active lease ends.
    pub fn settle_clear(&mut self, requested: X11LeaseToken, owner: Option<u32>) -> (step:
        X11ClearStep)
        ensures
            final(self)@.next_lease_id == old(self)@.next_lease_id,
            old(self)@.active != Some(requested) ==> step == (X11ClearStep::Finished {
                outcome: ClearOutcome::OwnershipLost,
                destroy: None,
            }) && final(self)@ == old(self)@ && final(self).payload() == old(self).payload(),
            old(self)@.active == Some(requested) ==> {
                &&& final(self)@.active is None
                &&& match owner {
                    None => step == (X11ClearStep::Finished {
                        outcome: ClearOutcome::Fatal,
                        destroy: Some(requested.window),
                    }),
                    Some(o) => if o != requested.window {
                        step == (X11ClearStep::Finished {
                            outcome: ClearOutcome::OwnershipLost,
                            destroy: Some(requested.window),
                        })
                    } else {
                        step == X11ClearStep::DestroyOwned { window: requested.window }
                    },
                }
            },
    {
        if !x11_token_matches(self.active(), requested) {
            return X11ClearStep::Finished { outcome: ClearOutcome::OwnershipLost, destroy: None };
        }
        let window = self.take_active();
        match owner {
            None => X11ClearStep::Finished { outcome: ClearOutcome::Fatal, destroy: window },
            Some(o) => if o != requested.window {
                X11ClearStep::Finished { outcome: ClearOutcome::OwnershipLost, destroy: window }
            } else {
                X11ClearStep::DestroyOwned { window: requested.window }
            },
        }
    }
}

/// A committed copy whose previous window could not be confirmed destroyed
/// may still leave that content reachable: the copy counts as uncertain.
pub fn previous_destroyed(token: X11LeaseToken, destroyed: bool) -> (outcome: CopyOutcome<
    X11LeaseToken,
>)
    ensures
        outcome == if destroyed {
            CopyOutcome::Committed(token)
        } else {
            CopyOutcome::CommitUncertain(Some(token))
        },
{
    if destroyed {
        CopyOutcome::Committed(token)
    } else {
        CopyOutcome::CommitUncertain(Some(token))
    }
}

/// The outcome of clearing an owned lease: cleared once its window is
/// confirmed destroyed; otherwise lost while the connection still works,
/// and fatal when it does not.
pub fn clear_destroyed(destroyed: bool, connection_alive: bool) -> (outcome: ClearOutcome)
    ensures
        outcome == if destroyed {
            ClearOutcome::Cleared
        } else if connection_alive {
            ClearOutcome::OwnershipLost
        } else {
            ClearOutcome::Fatal
        },
{
    if destroyed {
        ClearOutcome::Cleared
    } else if connection_alive {
        ClearOutcome::OwnershipLost
    } else {
        ClearOutcome::Fatal
    }
}

} // verus!
