use vstd::prelude::*;

verus! {

/// Key codes, and the bits that mark the modifiers held with a key.
pub struct Key;

#[allow(non_upper_case_globals)]
impl Key {
    pub const Shift: u32 = 0b10000000000000000000000000000000;
    pub const Ctrl: u32 = 0b01000000000000000000000000000000;
    pub const Alt: u32 = 0b00100000000000000000000000000000;
    pub const Super: u32 = 0b00010000000000000000000000000000;

    pub const Empty: u32 = 0;
    pub const Escape: u32 = 9;
    pub const Num1: u32 = 10;
    pub const Num2: u32 = 11;
    pub const Num3: u32 = 12;
    pub const Num4: u32 = 13;
    pub const Num5: u32 = 14;
    pub const Num6: u32 = 15;
    pub const Num7: u32 = 16;
    pub const Num8: u32 = 17;
    pub const Num9: u32 = 18;
    pub const Num0: u32 = 19;
    pub const Minus: u32 = 20;
    pub const Equal: u32 = 21;
    pub const Backspace: u32 = 22;
    pub const Tab: u32 = 23;
    pub const Q: u32 = 24;
    pub const W: u32 = 25;
    pub const E: u32 = 26;
    pub const R: u32 = 27;
    pub const T: u32 = 28;
    pub const Y: u32 = 29;
    pub const U: u32 = 30;
    pub const I: u32 = 31;
    pub const O: u32 = 32;
    pub const P: u32 = 33;
    pub const LeftBracket: u32 = 34;
    pub const RightBracket: u32 = 35;
    pub const Return: u32 = 36;
    pub const CtrlLeft: u32 = 37;
    pub const A: u32 = 38;
    pub const S: u32 = 39;
    pub const D: u32 = 40;
    pub const F: u32 = 41;
    pub const G: u32 = 42;
    pub const H: u32 = 43;
    pub const J: u32 = 44;
    pub const K: u32 = 45;
    pub const L: u32 = 46;
    pub const Semicolon: u32 = 47;
    pub const Apostrophe: u32 = 48;
    pub const Grave: u32 = 49;
    pub const ShiftLeft: u32 = 50;
    pub const Backslash: u32 = 51;
    pub const Z: u32 = 52;
    pub const X: u32 = 53;
    pub const C: u32 = 54;
    pub const V: u32 = 55;
    pub const B: u32 = 56;
    pub const N: u32 = 57;
    pub const M: u32 = 58;
    pub const Comma: u32 = 59;
    pub const Dot: u32 = 60;
    pub const Slash: u32 = 61;
    pub const ShiftRight: u32 = 62;
    pub const KeypadMultiply: u32 = 63;
    pub const AltLeft: u32 = 64;
    pub const Space: u32 = 65;
    pub const CapsLock: u32 = 66;
    pub const F1: u32 = 67;
    pub const F2: u32 = 68;
    pub const F3: u32 = 69;
    pub const F4: u32 = 70;
    pub const F5: u32 = 71;
    pub const F6: u32 = 72;
    pub const F7: u32 = 73;
    pub const F8: u32 = 74;
    pub const F9: u32 = 75;
    pub const F10: u32 = 76;
    pub const NumLock: u32 = 77;
    pub const ScrollLock: u32 = 78;
    pub const Keypad7: u32 = 79;
    pub const Keypad8: u32 = 80;
    pub const Keypad9: u32 = 81;
    pub const KeypadMinus: u32 = 82;
    pub const Keypad4: u32 = 83;
    pub const Keypad5: u32 = 84;
    pub const Keypad6: u32 = 85;
    pub const KeypadPlus: u32 = 86;
    pub const Keypad1: u32 = 87;
    pub const Keypad2: u32 = 88;
    pub const Keypad3: u32 = 89;
    pub const Keypad0: u32 = 90;
    pub const KeypadDot: u32 = 91;
    pub const International: u32 = 94;
    pub const F11: u32 = 95;
    pub const F12: u32 = 96;
    pub const PrintScreen: u32 = 107;
    pub const AltRight: u32 = 108;
    pub const Home: u32 = 110;
    pub const CursorUp: u32 = 111;
    pub const PageUp: u32 = 112;
    pub const CursorLeft: u32 = 113;
    pub const CursorRight: u32 = 114;
    pub const End: u32 = 115;
    pub const CursorDown: u32 = 116;
    pub const PageDown: u32 = 117;
    pub const Insert: u32 = 118;
    pub const Delete: u32 = 119;
    pub const Pause: u32 = 127;
    pub const LogoLeft: u32 = 133;
    pub const LogoRight: u32 = 134;
}

/// Which modifiers are held.
#[derive(Debug, Clone, Copy, PartialEq, Eq, Structural)]
pub struct KeyModifiers {
    pub shift: bool,
    pub ctrl: bool,
    pub alt: bool,
    pub logo: bool,
}

/// The modifier bits that `modifiers` stand for.
pub open spec fn modifier_bits(modifiers: KeyModifiers) -> u32 {
    (if modifiers.shift { 0x8000_0000u32 } else { 0u32 })
        | (if modifiers.ctrl { 0x4000_0000u32 } else { 0u32 })
        | (if modifiers.alt { 0x2000_0000u32 } else { 0u32 })
        | (if modifiers.logo { 0x1000_0000u32 } else { 0u32 })
}

/// The character of the hexadecimal digit `d` (lower case).
pub open spec fn hex_char(d: nat) -> char {
    if d < 10 {
        (d + 48) as char
    } else {
        (d - 10 + 97) as char
    }
}

/// The hexadecimal digits of `n`, most significant first, without leading
/// zeros (a single "0" for zero).
pub open spec fn hex_digits(n: nat) -> Seq<char>
    decreases n,
{
    if n < 16 {
        seq![hex_char(n)]
    } else {
        hex_digits(n / 16).push(hex_char(n % 16))
    }
}

/// `count` zeros.
pub open spec fn zeros(count: int) -> Seq<char> {
    Seq::new(if count > 0 { count as nat } else { 0 }, |i: int| '0')
}

/// `n` as `{:#06x}` prints it: "0x" and at least four hexadecimal digits.
pub open spec fn hex_field(n: nat) -> Seq<char> {
    seq!['0', 'x'] + zeros(4 - hex_digits(n).len()) + hex_digits(n)
}

/// The names of the modifiers set in `key`, each followed by '+', in the
/// order Super, Alt, Ctrl, Shift.
pub open spec fn modifier_prefix(key: u32) -> Seq<char> {
    (if key & 0x1000_0000 != 0 { seq!['S', 'u', 'p', 'e', 'r', '+'] } else { Seq::empty() })
        + (if key & 0x2000_0000 != 0 { seq!['A', 'l', 't', '+'] } else { Seq::empty() })
        + (if key & 0x4000_0000 != 0 { seq!['C', 't', 'r', 'l', '+'] } else { Seq::empty() })
        + (if key & 0x8000_0000 != 0 { seq!['S', 'h', 'i', 'f', 't', '+'] } else { Seq::empty() })
}

/// How a key combination reads: its modifiers, then its key code as
/// hexadecimal.
pub open spec fn key_display(key: u32) -> Seq<char> {
    modifier_prefix(key) + hex_field((key & 0xFF_FFFF) as nat)
}

/// The hex digits of `n` have at most four characters where `n < 0x1_0000`,
/// and at least `k + 1` where `n >= 16^k`.
pub proof fn lemma_hex_digits_len(n: nat)
    ensures
        hex_digits(n).len() >= 1,
        n < 0x10 ==> hex_digits(n).len() == 1,
        0x10 <= n < 0x100 ==> hex_digits(n).len() == 2,
        0x100 <= n < 0x1000 ==> hex_digits(n).len() == 3,
        0x1000 <= n < 0x1_0000 ==> hex_digits(n).len() == 4,
        n >= 0x1000 ==> hex_digits(n).len() >= 4,
    decreases n,
{
    if n >= 16 {
        lemma_hex_digits_len(n / 16);
    }
}

/// The one-character string of the hexadecimal digit `d`.
fn hex_digit_str(d: u32) -> (s: &'static str)
    requires
        d < 16,
    ensures
        s@ == seq![hex_char(d as nat)],
{
    proof {
        reveal_strlit("0");
        reveal_strlit("1");
        reveal_strlit("2");
        reveal_strlit("3");
        reveal_strlit("4");
        reveal_strlit("5");
        reveal_strlit("6");
        reveal_strlit("7");
        reveal_strlit("8");
        reveal_strlit("9");
        reveal_strlit("a");
        reveal_strlit("b");
        reveal_strlit("c");
        reveal_strlit("d");
        reveal_strlit("e");
        reveal_strlit("f");
    }
    match d {
        0 => "0",
        1 => "1",
        2 => "2",
        3 => "3",
        4 => "4",
        5 => "5",
        6 => "6",
        7 => "7",
        8 => "8",
        9 => "9",
        10 => "a",
        11 => "b",
        12 => "c",
        13 => "d",
        14 => "e",
        _ => "f",
    }
}

/// Appends the hexadecimal digits of `n` to `s`.
fn append_hex(s: &mut String, n: u32)
    ensures
        final(s)@ == old(s)@ + hex_digits(n as nat),
    decreases n,
{
    if n >= 16 {
        append_hex(s, n / 16);
        s.append(hex_digit_str(n % 16));
        assert(s@ =~= old(s)@ + hex_digits(n as nat));
    } else {
        s.append(hex_digit_str(n));
        assert(s@ =~= old(s)@ + hex_digits(n as nat));
    }
}

impl Key {
    /// `key` with the bits of the held modifiers set.
    pub fn with_modifiers(key: u32, modifiers: &KeyModifiers) -> (k: u32)
        ensures
            k == key | modifier_bits(*modifiers),
    {
        let shift = if modifiers.shift {
            Key::Shift
        } else {
            0
        };
        let ctrl = if modifiers.ctrl {
            Key::Ctrl
        } else {
            0
        };
        let alt = if modifiers.alt {
            Key::Alt
        } else {
            0
        };
        let logo = if modifiers.logo {
            Key::Super
        } else {
            0
        };
        let k = key | shift | ctrl | alt | logo;
        assert(key | shift | ctrl | alt | logo == key | (shift | ctrl | alt | logo)) by (bit_vector);
        k
    }

    /// How a key combination reads, such as "Super+Shift+0x0024": the held
    /// modifiers in the order Super, Alt, Ctrl, Shift, each followed by '+',
    /// then the low 24 bits of the key as "0x" and at least four lower-case
    /// hexadecimal digits.
    pub fn display(key: u32) -> (s: String)
        ensures
            s@ == key_display(key),
    {
        let mut s = String::new();
        append_modifier_prefix(&mut s, key);
        append_hex_field(&mut s, key & 0xFF_FFFF);
        assert(s@ =~= key_display(key));
        s
    }
}

/// Appends the names of the modifiers set in `key` to `s`.
fn append_modifier_prefix(s: &mut String, key: u32)
    ensures
        final(s)@ == old(s)@ + modifier_prefix(key),
{
    proof {
        reveal_strlit("Super+");
        reveal_strlit("Alt+");
        reveal_strlit("Ctrl+");
        reveal_strlit("Shift+");
    }
    if key & Key::Super != 0 {
        s.append("Super+");
    }
    if key & Key::Alt != 0 {
        s.append("Alt+");
    }
    if key & Key::Ctrl != 0 {
        s.append("Ctrl+");
    }
    if key & Key::Shift != 0 {
        s.append("Shift+");
    }
    assert(s@ =~= old(s)@ + modifier_prefix(key));
}

/// Appends `n` as `{:#06x}` prints it to `s`.
fn append_hex_field(s: &mut String, n: u32)
    ensures
        final(s)@ == old(s)@ + hex_field(n as nat),
{
    proof {
        reveal_strlit("0x");
        reveal_strlit("00");
        reveal_strlit("000");
        reveal_strlit("0");
        lemma_hex_digits_len(n as nat);
    }
    s.append("0x");
    if n < 0x10 {
        s.append("000");
    } else if n < 0x100 {
        s.append("00");
    } else if n < 0x1000 {
        s.append("0");
    }
    assert(s@ =~= old(s)@ + seq!['0', 'x'] + zeros(4 - hex_digits(n as nat).len()));
    append_hex(s, n);
    assert(s@ =~= old(s)@ + hex_field(n as nat));
}


/// The names that `display` gives the modifiers of `modifiers`, each followed
/// by '+', in the order Super, Alt, Ctrl, Shift.
pub open spec fn modifier_names(modifiers: KeyModifiers) -> Seq<char> {
    (if modifiers.logo { seq!['S', 'u', 'p', 'e', 'r', '+'] } else { Seq::empty() })
        + (if modifiers.alt { seq!['A', 'l', 't', '+'] } else { Seq::empty() })
        + (if modifiers.ctrl { seq!['C', 't', 'r', 'l', '+'] } else { Seq::empty() })
        + (if modifiers.shift { seq!['S', 'h', 'i', 'f', 't', '+'] } else { Seq::empty() })
}

/// A key code read with modifiers shows exactly the held modifiers, and its
/// code as it was: for a code without modifier bits, the display of
/// `with_modifiers(code, m)` is the names of `m` followed by the code.
pub proof fn lemma_display_shows_modifiers(code: u32, modifiers: KeyModifiers)
    requires
        code < 0x1000_0000,
    ensures
        key_display(code | modifier_bits(modifiers)) == modifier_names(modifiers) + hex_field(
            (code & 0xFF_FFFF) as nat,
        ),
{
    let s: u32 = if modifiers.shift { 0x8000_0000u32 } else { 0u32 };
    let c: u32 = if modifiers.ctrl { 0x4000_0000u32 } else { 0u32 };
    let a: u32 = if modifiers.alt { 0x2000_0000u32 } else { 0u32 };
    let l: u32 = if modifiers.logo { 0x1000_0000u32 } else { 0u32 };
    let k = code | (s | c | a | l);
    assert(k == code | modifier_bits(modifiers));
    assert((k & 0x1000_0000 != 0) == (l != 0)) by (bit_vector)
        requires
            k == code | (s | c | a | l),
            code < 0x1000_0000,
            s == 0 || s == 0x8000_0000,
            c == 0 || c == 0x4000_0000,
            a == 0 || a == 0x2000_0000,
            l == 0 || l == 0x1000_0000,
    ;
    assert((k & 0x2000_0000 != 0) == (a != 0)) by (bit_vector)
        requires
            k == code | (s | c | a | l),
            code < 0x1000_0000,
            s == 0 || s == 0x8000_0000,
            c == 0 || c == 0x4000_0000,
            a == 0 || a == 0x2000_0000,
            l == 0 || l == 0x1000_0000,
    ;
    assert((k & 0x4000_0000 != 0) == (c != 0)) by (bit_vector)
        requires
            k == code | (s | c | a | l),
            code < 0x1000_0000,
            s == 0 || s == 0x8000_0000,
            c == 0 || c == 0x4000_0000,
            a == 0 || a == 0x2000_0000,
            l == 0 || l == 0x1000_0000,
    ;
    assert((k & 0x8000_0000 != 0) == (s != 0)) by (bit_vector)
        requires
            k == code | (s | c | a | l),
            code < 0x1000_0000,
            s == 0 || s == 0x8000_0000,
            c == 0 || c == 0x4000_0000,
            a == 0 || a == 0x2000_0000,
            l == 0 || l == 0x1000_0000,
    ;
    assert(k & 0xFF_FFFF == code & 0xFF_FFFF) by (bit_vector)
        requires
            k == code | (s | c | a | l),
            s == 0 || s == 0x8000_0000,
            c == 0 || c == 0x4000_0000,
            a == 0 || a == 0x2000_0000,
            l == 0 || l == 0x1000_0000,
    ;
    assert(modifier_prefix(k) =~= modifier_names(modifiers));
}

/// Whether the first two characters of `s` are `c0` and `c1`.
pub open spec fn starts_with_pair(s: Seq<char>, c0: char, c1: char) -> bool {
    s.len() >= 2 && s[0] == c0 && s[1] == c1
}

/// Reads a modifier name of `len` characters that begins with `c0`, `c1` off
/// the front of `s`: whether it is there, and what follows.
pub open spec fn read_name(s: Seq<char>, c0: char, c1: char, len: int) -> (bool, Seq<char>) {
    if starts_with_pair(s, c0, c1) {
        (true, s.skip(len))
    } else {
        (false, s)
    }
}

/// Reads a displayed key combination back: whether it names Super, Alt,
/// Ctrl and Shift, and the hexadecimal field that follows the names.
pub open spec fn read_display(s: Seq<char>) -> (bool, bool, bool, bool, Seq<char>) {
    let l = read_name(s, 'S', 'u', 6);
    let a = read_name(l.1, 'A', 'l', 4);
    let c = read_name(a.1, 'C', 't', 5);
    let sh = read_name(c.1, 'S', 'h', 6);
    (l.0, a.0, c.0, sh.0, sh.1)
}

/// The value of a hexadecimal digit character as `hex_char` writes it.
pub open spec fn hex_char_value(c: char) -> int {
    if c >= 'a' {
        c as int - 87
    } else {
        c as int - 48
    }
}

/// The value of a string of hexadecimal digits, most significant first.
pub open spec fn hex_text_value(s: Seq<char>) -> int
    decreases s.len(),
{
    if s.len() == 0 {
        0
    } else {
        hex_text_value(s.drop_last()) * 16 + hex_char_value(s.last())
    }
}

proof fn lemma_hex_char_value(d: nat)
    requires
        d < 16,
    ensures
        hex_char_value(hex_char(d)) == d,
{
    if d < 10 {
        assert(((d + 48) as char) as int == d + 48);
    } else {
        assert(((d - 10 + 97) as char) as int == d + 87);
    }
}

proof fn lemma_hex_digits_value(n: nat)
    ensures
        hex_text_value(hex_digits(n)) == n,
    decreases n,
{
    if n >= 16 {
        lemma_hex_digits_value(n / 16);
        let d = hex_digits(n);
        assert(d.drop_last() =~= hex_digits(n / 16));
        assert(d.last() == hex_char(n % 16));
        lemma_hex_char_value(n % 16);
        assert(hex_text_value(d) == hex_text_value(hex_digits(n / 16)) * 16 + hex_char_value(hex_char(n % 16)));
        assert(n == (n / 16) * 16 + n % 16) by (nonlinear_arith);
    } else {
        lemma_hex_char_value(n);
        let single = seq![hex_char(n)];
        assert(hex_digits(n) == single);
        assert(single.drop_last() =~= Seq::<char>::empty());
        assert(single.last() == hex_char(n));
        assert(hex_text_value(Seq::<char>::empty()) == 0);
        assert(hex_text_value(single) == hex_text_value(single.drop_last()) * 16 + hex_char_value(single.last()));
        assert(hex_digits(n).drop_last() =~= Seq::<char>::empty());
    }
}

proof fn lemma_zeros_value(k: int, s: Seq<char>)
    ensures
        hex_text_value(zeros(k) + s) == hex_text_value(s),
    decreases s.len(), if k > 0 { k } else { 0 },
{
    if s.len() > 0 {
        assert((zeros(k) + s).drop_last() =~= zeros(k) + s.drop_last());
        lemma_zeros_value(k, s.drop_last());
    } else if k > 0 {
        assert(zeros(k) + s =~= zeros(k - 1) + seq!['0']);
        assert((zeros(k - 1) + seq!['0']).drop_last() =~= zeros(k - 1) + Seq::<char>::empty());
        lemma_zeros_value(k - 1, Seq::<char>::empty());
    } else {
        assert(zeros(k) + s =~= Seq::<char>::empty());
    }
}

/// The hexadecimal field of `n` reads back as `n`.
proof fn lemma_hex_field_value(n: nat)
    ensures
        hex_text_value(hex_field(n).skip(2)) == n,
{
    assert(hex_field(n).skip(2) =~= zeros(4 - hex_digits(n).len()) + hex_digits(n));
    lemma_zeros_value(4 - hex_digits(n).len(), hex_digits(n));
    lemma_hex_digits_value(n);
}

proof fn lemma_read_name(p: Seq<char>, r: Seq<char>, c0: char, c1: char, len: int)
    requires
        p.len() == 0 || (p.len() == len && len >= 2 && p[0] == c0 && p[1] == c1),
        p.len() == 0 ==> !starts_with_pair(r, c0, c1),
    ensures
        read_name(p + r, c0, c1, len) == (p.len() > 0, r),
{
    if p.len() > 0 {
        assert((p + r)[0] == c0 && (p + r)[1] == c1);
        assert((p + r).skip(len) =~= r);
    } else {
        assert(p + r =~= r);
    }
}

proof fn lemma_starts_with(p: Seq<char>, r: Seq<char>)
    requires
        p.len() >= 2 || p.len() == 0,
        r.len() >= 2,
    ensures
        p.len() >= 2 ==> starts_with_pair(p + r, p[0], p[1]),
        p.len() == 0 ==> p + r == r,
{
    if p.len() == 0 {
        assert(p + r =~= r);
    }
}

/// The names of `modifiers` followed by a hexadecimal field read back as
/// those modifiers and that field.
proof fn lemma_read_names(modifiers: KeyModifiers, h: Seq<char>)
    requires
        starts_with_pair(h, '0', 'x'),
    ensures
        read_display(modifier_names(modifiers) + h) == (
            modifiers.logo,
            modifiers.alt,
            modifiers.ctrl,
            modifiers.shift,
            h,
        ),
{
    let pl: Seq<char> = if modifiers.logo { seq!['S', 'u', 'p', 'e', 'r', '+'] } else { Seq::empty() };
    let pa: Seq<char> = if modifiers.alt { seq!['A', 'l', 't', '+'] } else { Seq::empty() };
    let pc: Seq<char> = if modifiers.ctrl { seq!['C', 't', 'r', 'l', '+'] } else { Seq::empty() };
    let ps: Seq<char> = if modifiers.shift { seq!['S', 'h', 'i', 'f', 't', '+'] } else { Seq::empty() };
    let r3 = ps + h;
    let r2 = pc + r3;
    let r1 = pa + r2;
    assert(modifier_names(modifiers) + h =~= pl + r1);
    lemma_starts_with(ps, h);
    lemma_starts_with(pc, r3);
    lemma_starts_with(pa, r2);
    lemma_read_name(pl, r1, 'S', 'u', 6);
    lemma_read_name(pa, r2, 'A', 'l', 4);
    lemma_read_name(pc, r3, 'C', 't', 5);
    lemma_read_name(ps, h, 'S', 'h', 6);
}

/// A displayed key combination reads back as its modifier bits and the
/// hexadecimal field of its low 24 bits.
proof fn lemma_read_display(key: u32)
    ensures
        read_display(key_display(key)) == (
            key & 0x1000_0000 != 0,
            key & 0x2000_0000 != 0,
            key & 0x4000_0000 != 0,
            key & 0x8000_0000 != 0,
            hex_field((key & 0xFF_FFFF) as nat),
        ),
{
    let modifiers = KeyModifiers {
        shift: key & 0x8000_0000 != 0,
        ctrl: key & 0x4000_0000 != 0,
        alt: key & 0x2000_0000 != 0,
        logo: key & 0x1000_0000 != 0,
    };
    let h = hex_field((key & 0xFF_FFFF) as nat);
    assert(modifier_prefix(key) =~= modifier_names(modifiers));
    assert(starts_with_pair(h, '0', 'x'));
    lemma_read_names(modifiers, h);
}

/// Two keys display alike exactly where they agree outside bits 24 to 27:
/// the display shows the four modifier bits and the low 24 bits, and only
/// those (see `Key::display`).
pub proof fn lemma_display_identifies_key(k1: u32, k2: u32)
    ensures
        key_display(k1) == key_display(k2) <==> (k1 & 0xF0FF_FFFF) == (k2 & 0xF0FF_FFFF),
{
    if key_display(k1) == key_display(k2) {
        lemma_read_display(k1);
        lemma_read_display(k2);
        lemma_hex_field_value((k1 & 0xFF_FFFF) as nat);
        lemma_hex_field_value((k2 & 0xFF_FFFF) as nat);
        assert((k1 & 0xF0FF_FFFF) == (k2 & 0xF0FF_FFFF)) by (bit_vector)
            requires
                (k1 & 0x1000_0000 != 0) == (k2 & 0x1000_0000 != 0),
                (k1 & 0x2000_0000 != 0) == (k2 & 0x2000_0000 != 0),
                (k1 & 0x4000_0000 != 0) == (k2 & 0x4000_0000 != 0),
                (k1 & 0x8000_0000 != 0) == (k2 & 0x8000_0000 != 0),
                (k1 & 0xFF_FFFF) == (k2 & 0xFF_FFFF),
        ;
    }
    if (k1 & 0xF0FF_FFFF) == (k2 & 0xF0FF_FFFF) {
        assert({
            &&& (k1 & 0x1000_0000 != 0) == (k2 & 0x1000_0000 != 0)
            &&& (k1 & 0x2000_0000 != 0) == (k2 & 0x2000_0000 != 0)
            &&& (k1 & 0x4000_0000 != 0) == (k2 & 0x4000_0000 != 0)
            &&& (k1 & 0x8000_0000 != 0) == (k2 & 0x8000_0000 != 0)
            &&& (k1 & 0xFF_FFFF) == (k2 & 0xFF_FFFF)
        }) by (bit_vector)
            requires
                (k1 & 0xF0FF_FFFF) == (k2 & 0xF0FF_FFFF),
        ;
        assert(modifier_prefix(k1) == modifier_prefix(k2));
    }
}

} // verus!
