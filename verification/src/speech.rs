//! Text preparation for the speech interjection and the synthesizer's
//! configuration-path policy. Synthesis itself — an external capability —
//! stays outside the crate: it receives the prepared text and a config path
//! and returns an audio file.

use vstd::prelude::*;

use crate::textscan::chars_to_string;
use crate::textscan::starts_with_chars;
use crate::textscan::starts_with_seq;
use crate::textscan::str_to_chars;
use crate::textscan::sub_chars;

verus! {

/// The blocks of characters stripped before synthesis: emoji and related
/// pictographs, regional indicators, miscellaneous symbols, dingbats and
/// variation selectors.
pub open spec fn is_emoji_char(c: char) -> bool {
    ||| 0x1F300 <= c as u32 <= 0x1FAFF
    ||| 0x1F1E6 <= c as u32 <= 0x1F1FF
    ||| 0x2600 <= c as u32 <= 0x26FF
    ||| 0x2700 <= c as u32 <= 0x27BF
    ||| 0xFE00 <= c as u32 <= 0xFE0F
}

/// Whether the synthesizer should not be asked to speak this character.
pub fn is_emoji(c: char) -> (r: bool)
    ensures
        r == is_emoji_char(c),
{
    let x = c as u32;
    (0x1F300 <= x && x <= 0x1FAFF) || (0x1F1E6 <= x && x <= 0x1F1FF) || (0x2600 <= x && x
        <= 0x26FF) || (0x2700 <= x && x <= 0x27BF) || (0xFE00 <= x && x <= 0xFE0F)
}

/// The characters of `s` with every emoji removed, in order.
pub open spec fn strip_emojis(s: Seq<char>) -> Seq<char>
    decreases s.len(),
{
    if s.len() == 0 {
        s
    } else if is_emoji_char(s[0]) {
        strip_emojis(s.drop_first())
    } else {
        seq![s[0]] + strip_emojis(s.drop_first())
    }
}

/// Remove every emoji, keeping everything else in order.
#[verifier::loop_isolation(false)]
pub fn filter_emojis(v: &Vec<char>) -> (r: Vec<char>)
    ensures
        r@ == strip_emojis(v@),
{
    let mut out: Vec<char> = Vec::new();
    let n = v.len();
    proof {
        assert(v@.subrange(0, n as int) =~= v@);
    }
    let mut i: usize = 0;
    while i < n
        invariant
            i <= n,
            strip_emojis(v@) =~= out@ + strip_emojis(v@.subrange(i as int, n as int)),
        decreases n - i,
    {
        let c = v[i];
        proof {
            assert(v@.subrange(i as int, n as int).drop_first() =~= v@.subrange(
                i + 1,
                n as int,
            ));
            assert(v@.subrange(i as int, n as int)[0] == v@[i as int]);
        }
        if !is_emoji(c) {
            out.push(c);
        }
        proof {
            assert(strip_emojis(v@) =~= out@ + strip_emojis(v@.subrange(i + 1, n as int)));
        }
        i = i + 1;
    }
    proof {
        assert(strip_emojis(v@.subrange(n as int, n as int)) =~= Seq::<char>::empty());
        assert(out@ =~= strip_emojis(v@));
    }
    out
}

/// The whitespace stripped from the ends of a spoken message.
pub open spec fn is_space_char(c: char) -> bool {
    c == ' ' || c == '\t' || c == '\r' || c == '\n'
}

fn is_space(c: char) -> (r: bool)
    ensures
        r == is_space_char(c),
{
    c == ' ' || c == '\t' || c == '\r' || c == '\n'
}

/// `s` without its leading whitespace.
pub open spec fn trim_front(s: Seq<char>) -> Seq<char>
    decreases s.len(),
{
    if s.len() > 0 && is_space_char(s[0]) {
        trim_front(s.drop_first())
    } else {
        s
    }
}

/// `s` without its trailing whitespace.
pub open spec fn trim_back(s: Seq<char>) -> Seq<char>
    decreases s.len(),
{
    if s.len() > 0 && is_space_char(s.last()) {
        trim_back(s.drop_last())
    } else {
        s
    }
}

/// `s` without leading and trailing whitespace.
pub open spec fn trim_spec(s: Seq<char>) -> Seq<char> {
    trim_back(trim_front(s))
}

proof fn lemma_trim_front(s: Seq<char>, a: int)
    requires
        0 <= a <= s.len(),
        forall|j: int| 0 <= j < a ==> is_space_char(s[j]),
        a < s.len() ==> !is_space_char(s[a]),
    ensures
        trim_front(s) =~= s.subrange(a, s.len() as int),
    decreases s.len(),
{
    if a == 0 {
        assert(s.subrange(0, s.len() as int) =~= s);
    } else {
        let t = s.drop_first();
        lemma_trim_front(t, a - 1);
        assert(t.subrange(a - 1, t.len() as int) =~= s.subrange(a, s.len() as int));
    }
}

proof fn lemma_trim_back(s: Seq<char>, b: int)
    requires
        0 <= b <= s.len(),
        forall|j: int| b <= j < s.len() ==> is_space_char(s[j]),
        b > 0 ==> !is_space_char(s[b - 1]),
    ensures
        trim_back(s) =~= s.subrange(0, b),
    decreases s.len(),
{
    if b == s.len() {
        assert(s.subrange(0, b) =~= s);
    } else {
        let t = s.drop_last();
        lemma_trim_back(t, b);
        assert(t.subrange(0, b) =~= s.subrange(0, b));
    }
}

/// The characters of `v` without leading and trailing whitespace.
#[verifier::loop_isolation(false)]
pub fn trim_chars(v: &Vec<char>) -> (r: Vec<char>)
    ensures
        r@ == trim_spec(v@),
{
    let n = v.len();
    let mut a: usize = 0;
    while a < n && is_space(v[a])
        invariant
            a <= n,
            forall|j: int| 0 <= j < a ==> is_space_char(v@[j]),
        decreases n - a,
    {
        a = a + 1;
    }
    proof {
        lemma_trim_front(v@, a as int);
    }
    if a == n {
        proof {
            assert(trim_front(v@) =~= Seq::<char>::empty());
            assert(trim_back(Seq::<char>::empty()) =~= Seq::<char>::empty());
        }
        return Vec::new();
    }
    let mut b: usize = n;
    while b > a && is_space(v[b - 1])
        invariant
            a <= b <= n,
            forall|j: int| b <= j < n ==> is_space_char(v@[j]),
        decreases b,
    {
        b = b - 1;
    }
    proof {
        assert(b > a) by {
            if b == a {
                assert(is_space_char(v@[a as int]));
            }
        }
        let t = trim_front(v@);
        assert(t =~= v@.subrange(a as int, n as int));
        assert(forall|j: int|
            b - a <= j < t.len() ==> is_space_char(#[trigger] t[j]) == is_space_char(
                v@[j + a],
            ));
        lemma_trim_back(t, b - a);
        assert(t.subrange(0, b - a) =~= v@.subrange(a as int, b as int));
    }
    sub_chars(v, a, b)
}

/// What the say command will hand to the synthesizer: the message trimmed,
/// emoji removed, and trimmed again.
pub open spec fn tts_text_spec(s: Seq<char>) -> Seq<char> {
    trim_spec(strip_emojis(trim_spec(s)))
}

/// Prepare a spoken message: trim it, strip emoji, trim again; a message
/// with nothing left to say is rejected.
pub fn prepare_tts_text(input: &str) -> (r: Option<String>)
    ensures
        tts_text_spec(input@).len() == 0 ==> r is None,
        tts_text_spec(input@).len() > 0 ==> (r matches Some(t) && t@ == tts_text_spec(input@)),
{
    let chars = str_to_chars(input);
    let trimmed = trim_chars(&chars);
    let filtered = filter_emojis(&trimmed);
    let cleaned = trim_chars(&filtered);
    if cleaned.len() == 0 {
        None
    } else {
        Some(chars_to_string(&cleaned))
    }
}

/// The synthesizer as an owned resource with explicit warm-up: built cold,
/// loaded exactly once, on first use. The caller owns one of these next to
/// the external engine instance and asks it before every synthesis whether
/// the model still has to be loaded.
pub struct SynthesizerHandle {
    warm: bool,
}

impl SynthesizerHandle {
    /// Whether the engine behind this handle has been loaded.
    pub closed spec fn is_warm(self) -> bool {
        self.warm
    }

    /// A cold handle: nothing loaded yet.
    pub fn new() -> (h: SynthesizerHandle)
        ensures
            !h.is_warm(),
    {
        SynthesizerHandle { warm: false }
    }

    /// Called before each synthesis: reports whether the engine must be
    /// loaded first, which is the case exactly on the first use — afterwards
    /// the handle stays warm for good.
    pub fn begin_use(&mut self) -> (load_needed: bool)
        ensures
            final(self).is_warm(),
            load_needed == !old(self).is_warm(),
    {
        let load_needed = !self.warm;
        self.warm = true;
        load_needed
    }
}

/// Where the synthesizer's model configuration is looked up: an absolute
/// path is used as given; a relative path already under `models/` is kept;
/// any other relative path is placed under `models/`.
pub fn tts_config_path(raw: &str) -> (r: String)
    ensures
        starts_with_seq(raw@, "/"@) ==> r@ == raw@,
        !starts_with_seq(raw@, "/"@) && starts_with_seq(raw@, "models/"@) ==> r@ == raw@,
        !starts_with_seq(raw@, "/"@) && !starts_with_seq(raw@, "models/"@) ==> r@ =~= "models/"@
            + raw@,
{
    let chars = str_to_chars(raw);
    let root = str_to_chars("/");
    if starts_with_chars(&chars, &root) {
        return raw.to_owned();
    }
    let models_dir = str_to_chars("models/");
    if starts_with_chars(&chars, &models_dir) {
        return raw.to_owned();
    }
    let mut out = models_dir;
    let mut rest = chars;
    out.append(&mut rest);
    proof {
        assert(out@ =~= "models/"@ + raw@);
    }
    chars_to_string(&out)
}

} // verus!
