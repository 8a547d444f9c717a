use vstd::prelude::*;
use crate::text::{decimal_string, spec_decimal, spec_decimal_digits, spec_strip_spaces, strip_spaces};
use vstd::utf8::{decode_utf8, encode_utf8, is_char_boundary};

verus! {

/// The host's six-digit room code for a seed (the clock when the host pressed the button): one
/// step of a 64-bit linear congruential generator, brought into 100000..=999999.
pub open spec fn spec_join_code(seed: u64) -> u64 {
    let x = ((seed as nat * 6364136223846793005nat + 1442695040888963407nat) % 0x1_0000_0000_0000_0000nat) as u64;
    (100000 + x % 900000) as u64
}

/// Computes the room code for a seed.
pub fn join_code_from_seed(seed: u64) -> (code: u64)
    ensures
        code == spec_join_code(seed),
        100000 <= code <= 999999,
{
    let m = seed.wrapping_mul(6364136223846793005);
    let x = m.wrapping_add(1442695040888963407);
    proof {
        let s = seed as nat;
        assert(m as nat == (s * 6364136223846793005) % 0x1_0000_0000_0000_0000);
        vstd::arithmetic::div_mod::lemma_add_mod_noop(
            (s * 6364136223846793005) as int,
            1442695040888963407,
            0x1_0000_0000_0000_0000,
        );
        assert(1442695040888963407int % 0x1_0000_0000_0000_0000 == 1442695040888963407);
        assert((m as nat + 1442695040888963407) % 0x1_0000_0000_0000_0000 == (s * 6364136223846793005
            + 1442695040888963407) % 0x1_0000_0000_0000_0000);
    }
    100000 + x % 900000
}

/// The room code for a seed as text, as the host shows and shares it.
pub fn join_code_text(seed: u64) -> (s: String)
    ensures
        s@ == spec_decimal(spec_join_code(seed) as nat),
        s@.len() == 6,
{
    let code = join_code_from_seed(seed);
    proof {
        lemma_six_digit_text(code as nat);
    }
    decimal_string(code)
}

/// A number from 100000 to 999999 is written with exactly six digits.
pub proof fn lemma_six_digit_text(n: nat)
    requires
        100000 <= n <= 999999,
    ensures
        spec_decimal(n).len() == 6,
{
    assert(spec_decimal_digits(n / 100000).len() == 1);
    assert(spec_decimal_digits(n / 10000).len() == 2);
    assert(spec_decimal_digits(n / 1000).len() == 3);
    assert(spec_decimal_digits(n / 100).len() == 4);
    assert(spec_decimal_digits(n / 10).len() == 5);
    assert(spec_decimal_digits(n).len() == 6);
}

/// The length of a text in bytes, as Rust strings measure it.
pub open spec fn byte_len(s: Seq<char>) -> nat {
    encode_utf8(s).len()
}

/// The room code grouped for reading: the text of its first three bytes, a space, and the rest.
pub open spec fn spec_grouped_code(code: Seq<char>) -> Seq<char> {
    let b = encode_utf8(code);
    decode_utf8(b.subrange(0, 3)) + seq![' '] + decode_utf8(b.subrange(3, b.len() as int))
}

/// Groups a room code as "123 456" for the clipboard; the split falls after the third byte,
/// which must begin a character (or end the text).
pub fn grouped_code(code: &str) -> (s: String)
    requires
        is_char_boundary(encode_utf8(code@), 3),
    ensures
        s@ == spec_grouped_code(code@),
{
    broadcast use vstd::utf8::encode_utf8_decode_utf8;
    proof {
        reveal_strlit(" ");
    }
    let (head, tail) = code.split_at(3);
    let mut s = String::new();
    s.append(head);
    s.append(" ");
    s.append(tail);
    proof {
        assert(head@ == decode_utf8(encode_utf8(head@)));
        assert(tail@ == decode_utf8(encode_utf8(tail@)));
    }
    s
}

/// The address of the public matchmaking lobby.
pub fn public_room_url() -> (u: &'static str)
    ensures
        u@ == "wss://durfdog-sets.hf.space/rounds_lobby?next=8"@,
{
    "wss://durfdog-sets.hf.space/rounds_lobby?next=8"
}

/// The address of a private room, for a code as typed.
pub open spec fn spec_private_room_url(code: Seq<char>) -> Seq<char> {
    "wss://durfdog-sets.hf.space/room_"@ + code + "?next=8"@
}

/// The address of the private room with the given code.
pub fn private_room_url(code: &str) -> (u: String)
    ensures
        u@ == spec_private_room_url(code@),
{
    let mut u = String::new();
    u.append("wss://durfdog-sets.hf.space/room_");
    u.append(code);
    u.append("?next=8");
    u
}

/// The address a peer connects to: the public lobby when no code was given, else the private
/// room of the code with its spaces taken out.
pub fn matchmaking_room_url(code: &str) -> (u: String)
    ensures
        u@ == (if code@.len() == 0 {
            "wss://durfdog-sets.hf.space/rounds_lobby?next=8"@
        } else {
            spec_private_room_url(spec_strip_spaces(code@))
        }),
{
    if code.unicode_len() == 0 {
        let mut u = String::new();
        u.append(public_room_url());
        u
    } else {
        let formatted = strip_spaces(code);
        private_room_url(formatted.as_str())
    }
}

/// The number of digits in a room code.
pub const CODE_LENGTH: usize = 6;

/// Whether every character is an ASCII digit.
pub open spec fn all_digits(s: Seq<char>) -> bool {
    forall|i: int| 0 <= i < s.len() ==> '0' <= #[trigger] s[i] <= '9'
}

/// A key press on the join screen.
pub enum TypingKey {
    /// Text typed, as the keyboard reports it.
    Character(String),
    Backspace,
    Enter,
    Escape,
    /// Any other key.
    Other,
}

/// The room code being typed on the join screen.
pub struct ActiveJoinCodeTyping {
    pub is_typing: bool,
    pub code: String,
}

/// The code after a typed text: digits are taken while fewer than six are there, anything else is
/// ignored.
pub open spec fn spec_typed(code: Seq<char>, text: Seq<char>) -> Seq<char> {
    if all_digits(text) && byte_len(code) < CODE_LENGTH {
        code + text
    } else {
        code
    }
}

fn is_all_digits(text: &str) -> (r: bool)
    ensures
        r == all_digits(text@),
{
    let n = text.unicode_len();
    let mut i: usize = 0;
    while i < n
        invariant
            n == text@.len(),
            i <= n,
            forall|j: int| 0 <= j < i ==> '0' <= #[trigger] text@[j] <= '9',
        decreases n - i,
    {
        let c = text.get_char(i);
        if !('0' <= c && c <= '9') {
            return false;
        }
        i = i + 1;
    }
    true
}

impl ActiveJoinCodeTyping {
    /// The join screen before anyone types.
    pub fn new() -> (t: ActiveJoinCodeTyping)
        ensures
            !t.is_typing,
            t.code@ == Seq::<char>::empty(),
    {
        ActiveJoinCodeTyping { is_typing: false, code: String::new() }
    }

    /// Opens the code entry with an empty code ("JOIN PRIVATE GAME").
    pub fn start_typing(&mut self)
        ensures
            final(self).is_typing,
            final(self).code@ == Seq::<char>::empty(),
    {
        self.is_typing = true;
        self.code = String::new();
    }

    /// Closes the code entry and forgets the code ("BACK", or Escape).
    pub fn stop_typing(&mut self)
        ensures
            !final(self).is_typing,
            final(self).code@ == Seq::<char>::empty(),
    {
        self.is_typing = false;
        self.code = String::new();
    }

    /// The code to connect with, once all six digits are typed ("CONNECT TO HOST", or Enter).
    pub fn complete_code(&self) -> (c: Option<String>)
        ensures
            c is Some <==> byte_len(self.code@) == CODE_LENGTH,
            c matches Some(s) ==> s@ == self.code@,
    {
        if self.code.as_str().as_bytes().len() == CODE_LENGTH {
            Some(self.code.clone())
        } else {
            None
        }
    }

    /// Applies one key press to the code, whether or not the entry is still open (within a
    /// frame the keys already read are all handled): digits are typed, Backspace removes the last
    /// character, Escape closes the entry and forgets the code. Returns the code to connect with
    /// when Enter is pressed on a complete code.
    fn apply_key(&mut self, key: &TypingKey) -> (connect: Option<String>)
        ensures
            final(self).code@ == key_code(old(self).code@, *key),
            final(self).is_typing == (old(self).is_typing && !(key is Escape)),
            connect is Some <==> (key is Enter && byte_len(old(self).code@) == CODE_LENGTH),
            connect matches Some(c) ==> c@ == old(self).code@,
    {
        match key {
            TypingKey::Character(t) => {
                if is_all_digits(t.as_str()) && self.code.as_str().as_bytes().len() < CODE_LENGTH {
                    self.code.append(t.as_str());
                }
                None
            },
            TypingKey::Backspace => {
                let n = self.code.as_str().unicode_len();
                if n > 0 {
                    let kept = self.code.as_str().substring_char(0, n - 1);
                    let shorter = kept.to_owned();
                    assert(shorter@ =~= old(self).code@.drop_last());
                    self.code = shorter;
                }
                None
            },
            TypingKey::Enter => self.complete_code(),
            TypingKey::Escape => {
                self.stop_typing();
                None
            },
            TypingKey::Other => None,
        }
    }

    /// Handles one key press while the code entry is open (a closed entry ignores keys). Returns
    /// the code to connect with when Enter is pressed on a complete code.
    pub fn handle_key(&mut self, key: &TypingKey) -> (connect: Option<String>)
        ensures
            !old(self).is_typing ==> {
                &&& final(self).is_typing == old(self).is_typing
                &&& final(self).code@ == old(self).code@
                &&& connect is None
            },
            old(self).is_typing ==> final(self).is_typing == !(key is Escape),
            old(self).is_typing ==> final(self).code@ == key_code(old(self).code@, *key),
            old(self).is_typing ==> (connect is Some <==> (key is Enter && byte_len(old(self).code@) == CODE_LENGTH)),
            connect matches Some(c) ==> c@ == old(self).code@,
    {
        if !self.is_typing {
            return None;
        }
        self.apply_key(key)
    }

    /// Handles the key presses of one frame. An entry that is closed when the frame starts
    /// ignores them all; an open one handles every key of the frame in order, also those after
    /// an Escape. Returns the code to connect with when some Enter of the frame was pressed on a
    /// complete code (the last such Enter decides).
    pub fn handle_frame(&mut self, keys: &Vec<TypingKey>) -> (connect: Option<String>)
        ensures
            !old(self).is_typing ==> {
                &&& final(self).is_typing == old(self).is_typing
                &&& final(self).code@ == old(self).code@
                &&& connect is None
            },
            old(self).is_typing ==> final(self).is_typing == !frame_has_escape(keys@),
            old(self).is_typing ==> final(self).code@ == frame_code(old(self).code@, keys@),
            old(self).is_typing ==> match connect {
                Some(c) => frame_connect(old(self).code@, keys@) == Some(c@),
                None => frame_connect(old(self).code@, keys@) is None,
            },
    {
        if !self.is_typing {
            return None;
        }
        let ghost code0 = self.code@;
        let mut connect: Option<String> = None;
        let mut i: usize = 0;
        while i < keys.len()
            invariant
                i <= keys@.len(),
                self.code@ == frame_code(code0, keys@.take(i as int)),
                self.is_typing == !frame_has_escape(keys@.take(i as int)),
                match connect {
                    Some(c) => frame_connect(code0, keys@.take(i as int)) == Some(c@),
                    None => frame_connect(code0, keys@.take(i as int)) is None,
                },
            decreases keys@.len() - i,
        {
            proof {
                assert(keys@.take(i + 1).drop_last() =~= keys@.take(i as int));
                assert(keys@.take(i + 1).last() == keys@[i as int]);
            }
            let r = self.apply_key(&keys[i]);
            proof {
                let t = keys@.take(i + 1);
                if frame_has_escape(t) {
                    let j = choose|j: int| 0 <= j < t.len() && (#[trigger] t[j]) is Escape;
                    if j < i {
                        assert(keys@.take(i as int)[j] is Escape);
                    }
                }
                if frame_has_escape(keys@.take(i as int)) {
                    let j = choose|j: int| 0 <= j < i && (#[trigger] keys@.take(i as int)[j]) is Escape;
                    assert(t[j] is Escape);
                }
                if keys@[i as int] is Escape {
                    assert(t[i as int] is Escape);
                }
            }
            if r.is_some() {
                connect = r;
            }
            i = i + 1;
        }
        assert(keys@.take(i as int) =~= keys@);
        connect
    }
}

/// The code after one key press: digits are typed while fewer than six are there, Backspace
/// removes the last character, Escape forgets the code, and other keys leave it.
pub open spec fn key_code(code: Seq<char>, key: TypingKey) -> Seq<char> {
    match key {
        TypingKey::Character(t) => spec_typed(code, t@),
        TypingKey::Backspace => if code.len() == 0 {
            code
        } else {
            code.drop_last()
        },
        TypingKey::Escape => Seq::<char>::empty(),
        _ => code,
    }
}

/// The code after a frame's key presses, handled in order.
pub open spec fn frame_code(code: Seq<char>, keys: Seq<TypingKey>) -> Seq<char>
    decreases keys.len(),
{
    if keys.len() == 0 {
        code
    } else {
        key_code(frame_code(code, keys.drop_last()), keys.last())
    }
}

/// Whether Escape is among a frame's key presses.
pub open spec fn frame_has_escape(keys: Seq<TypingKey>) -> bool {
    exists|j: int| 0 <= j < keys.len() && (#[trigger] keys[j]) is Escape
}

/// The code a frame connects with: the code as it stood at the last Enter of the frame that
/// found all six digits typed, if any did.
pub open spec fn frame_connect(code: Seq<char>, keys: Seq<TypingKey>) -> Option<Seq<char>>
    decreases keys.len(),
{
    if keys.len() == 0 {
        None
    } else {
        let before = frame_code(code, keys.drop_last());
        if keys.last() is Enter && byte_len(before) == CODE_LENGTH {
            Some(before)
        } else {
            frame_connect(code, keys.drop_last())
        }
    }
}

/// The shown character for position `i` of the code: the typed character, or `_` past the
/// code's length in bytes.
pub open spec fn code_slot(code: Seq<char>, i: int) -> char {
    if i < byte_len(code) { code[i] } else { '_' }
}

/// The code box text for the first `n` positions: each position shows its character followed by
/// a space (but the last), and a wider gap separates the two groups of three.
pub open spec fn spec_code_display(code: Seq<char>, n: int) -> Seq<char>
    decreases n,
{
    if n <= 0 {
        Seq::empty()
    } else {
        let i = n - 1;
        let gap = if i == 3 { seq![' '] } else { Seq::<char>::empty() };
        let sep = if i < 5 { seq![' '] } else { Seq::<char>::empty() };
        spec_code_display(code, n - 1) + gap + seq![code_slot(code, i)] + sep
    }
}

/// The text shown in the code box, as "1 2 3  _ _ _".
pub fn join_code_display(code: &str) -> (d: String)
    requires
        (if byte_len(code@) < 6 { byte_len(code@) } else { 6 }) <= code@.len(),
    ensures
        d@ == spec_code_display(code@, 6),
{
    let n = code.as_bytes().len();
    let mut d = String::new();
    let mut i: usize = 0;
    while i < 6
        invariant
            n == byte_len(code@),
            (if byte_len(code@) < 6 { byte_len(code@) } else { 6 }) <= code@.len(),
            i <= 6,
            d@ == spec_code_display(code@, i as int),
        decreases 6 - i,
    {
        proof {
            reveal_strlit(" ");
            reveal_strlit("_");
        }
        let ghost before = d@;
        if i == 3 {
            d.append(" ");
        }
        let ghost gap = if i == 3 { seq![' '] } else { Seq::<char>::empty() };
        assert(d@ =~= before + gap);
        let ghost with_gap = d@;
        if i < n {
            let piece = code.substring_char(i, i + 1);
            assert(piece@ =~= seq![code@[i as int]]);
            d.append(piece);
        } else {
            d.append("_");
        }
        assert(d@ =~= with_gap + seq![code_slot(code@, i as int)]);
        let ghost with_slot = d@;
        if i < 5 {
            d.append(" ");
        }
        let ghost sep = if i < 5 { seq![' '] } else { Seq::<char>::empty() };
        assert(d@ =~= with_slot + sep);
        assert(spec_code_display(code@, i + 1) == spec_code_display(code@, i as int) + gap + seq![code_slot(code@, i as int)] + sep);
        i = i + 1;
    }
    d
}

/// Grouping a code for reading and taking the spaces out again gives the code back, so a
/// shared code joins the room it was made for.
pub proof fn lemma_grouped_code_strips_back(code: Seq<char>)
    requires
        is_char_boundary(encode_utf8(code), 3),
        !code.contains(' '),
    ensures
        spec_strip_spaces(spec_grouped_code(code)) == code,
{
    broadcast use vstd::utf8::encode_utf8_decode_utf8, vstd::utf8::encode_utf8_valid_utf8;
    let b = encode_utf8(code);
    let head = decode_utf8(b.subrange(0, 3));
    let tail = decode_utf8(b.subrange(3, b.len() as int));
    vstd::utf8::decode_utf8_split(b, 3);
    assert(head + tail == code);
    assert(!head.contains(' ')) by {
        if head.contains(' ') {
            let k = choose|k: int| 0 <= k < head.len() && head[k] == ' ';
            assert((head + tail)[k] == ' ');
        }
    }
    assert(!tail.contains(' ')) by {
        if tail.contains(' ') {
            let k = choose|k: int| 0 <= k < tail.len() && tail[k] == ' ';
            assert((head + tail)[head.len() + k] == ' ');
        }
    }
    lemma_strip_no_spaces(head);
    lemma_strip_no_spaces(tail);
    lemma_strip_concat(head + seq![' '], tail);
    lemma_strip_concat(head, seq![' ']);
    assert(spec_strip_spaces(seq![' ']) =~= Seq::<char>::empty()) by {
        let one = seq![' '];
        assert(one.drop_last() =~= Seq::<char>::empty());
        assert(one.last() == ' ');
        assert(spec_strip_spaces(one) == spec_strip_spaces(one.drop_last()));
        assert(spec_strip_spaces(Seq::<char>::empty()) == Seq::<char>::empty());
    }
    assert(head + Seq::<char>::empty() =~= head);
}

/// Text without spaces is left as it is.
pub proof fn lemma_strip_no_spaces(s: Seq<char>)
    requires
        !s.contains(' '),
    ensures
        spec_strip_spaces(s) == s,
    decreases s.len(),
{
    if s.len() > 0 {
        assert(!s.drop_last().contains(' ')) by {
            if s.drop_last().contains(' ') {
                let k = choose|k: int| 0 <= k < s.drop_last().len() && s.drop_last()[k] == ' ';
                assert(s[k] == ' ');
            }
        }
        lemma_strip_no_spaces(s.drop_last());
        assert(s[s.len() - 1] != ' ');
        assert(s.drop_last().push(s.last()) =~= s);
    }
}

/// Taking the spaces out of joined text takes them out of each part.
pub proof fn lemma_strip_concat(a: Seq<char>, b: Seq<char>)
    ensures
        spec_strip_spaces(a + b) == spec_strip_spaces(a) + spec_strip_spaces(b),
    decreases b.len(),
{
    if b.len() == 0 {
        assert(a + b =~= a);
        assert(spec_strip_spaces(a) + spec_strip_spaces(b) =~= spec_strip_spaces(a));
    } else {
        lemma_strip_concat(a, b.drop_last());
        assert((a + b).drop_last() =~= a + b.drop_last());
        assert((a + b).last() == b.last());
        if b.last() != ' ' {
            assert(spec_strip_spaces(a) + spec_strip_spaces(b.drop_last()).push(b.last()) =~= (spec_strip_spaces(a)
                + spec_strip_spaces(b.drop_last())).push(b.last()));
        }
    }
}

/// Whether a character is an ASCII digit, by its code: 48 ('0') to 57 ('9').
pub open spec fn digit_code(c: char) -> bool {
    48 <= (c as u32) <= 57
}

/// The join screen takes exactly the ASCII digits, '0' to '9' (codes 48 to 57): a typed text made
/// only of them is appended to an open entry holding fewer than six bytes, and a text holding any
/// other character, or typed into a full entry, leaves the code as it was.
pub proof fn lemma_digits_are_typed(code: Seq<char>, key: TypingKey)
    ensures
        key matches TypingKey::Character(t) ==> (all_digits(t@) <==> forall|i: int|
            0 <= i < t@.len() ==> digit_code(#[trigger] t@[i])),
        key matches TypingKey::Character(t) ==> ((forall|i: int| 0 <= i < t@.len() ==> digit_code(#[trigger] t@[i]))
            && byte_len(code) < CODE_LENGTH ==> key_code(code, key) == code + t@),
        key matches TypingKey::Character(t) ==> (!(forall|i: int| 0 <= i < t@.len() ==> digit_code(#[trigger] t@[i]))
            ==> key_code(code, key) == code),
        key matches TypingKey::Character(t) ==> (byte_len(code) >= CODE_LENGTH ==> key_code(code, key) == code),
{
    if let TypingKey::Character(t) = key {
        assert forall|i: int| 0 <= i < t@.len() implies (('0' <= #[trigger] t@[i] <= '9') <==> digit_code(t@[i])) by {
            lemma_digit_char_code(t@[i]);
        }
    }
}

proof fn lemma_digit_char_code(c: char)
    ensures
        ('0' <= c <= '9') <==> digit_code(c),
{
    assert(('0' as u32) == 48);
    assert(('9' as u32) == 57);
    assert((c as u32) as int == c as int);
}

} // verus!
