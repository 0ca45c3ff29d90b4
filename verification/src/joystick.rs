//! The game pad: a snapshot of its sticks and buttons, and where its lights are.
use vstd::prelude::*;
use vstd::string::StringExecFns;

verus! {

/// A snapshot of the game pad: stick and trigger positions scaled to about
/// `-128..=128`, and which buttons are held.
#[derive(Debug, Clone, Copy, PartialEq, Eq, Structural)]
pub struct GamePadState {
    pub lx: i32,
    pub ly: i32,
    pub rx: i32,
    pub ry: i32,
    pub rt: i32,
    pub lt: i32,
    pub rt_b: bool,
    pub lt_b: bool,
    pub circle: bool,
    pub cross: bool,
    pub triangle: bool,
    pub square: bool,
    pub left_dpad: bool,
    pub right_dpad: bool,
    pub down_dpad: bool,
    pub up_dpad: bool,
    pub lc: bool,
    pub rc: bool,
    pub option: bool,
    pub share: bool,
}

/// The snapshot of a pad at rest: sticks centred, nothing held.
pub open spec fn pad_at_rest() -> GamePadState {
    GamePadState {
        lx: 0,
        ly: 0,
        rx: 0,
        ry: 0,
        rt: 0,
        lt: 0,
        rt_b: false,
        lt_b: false,
        circle: false,
        cross: false,
        triangle: false,
        square: false,
        left_dpad: false,
        right_dpad: false,
        down_dpad: false,
        up_dpad: false,
        lc: false,
        rc: false,
        option: false,
        share: false,
    }
}

impl Default for GamePadState {
    fn default() -> (s: GamePadState)
        ensures
            s == pad_at_rest(),
    {
        GamePadState {
            lx: 0,
            ly: 0,
            rx: 0,
            ry: 0,
            rt: 0,
            lt: 0,
            rt_b: false,
            lt_b: false,
            circle: false,
            cross: false,
            triangle: false,
            square: false,
            left_dpad: false,
            right_dpad: false,
            down_dpad: false,
            up_dpad: false,
            lc: false,
            rc: false,
            option: false,
            share: false,
        }
    }
}

impl GamePadState {
    /// A snapshot of a pad at rest.
    pub fn new() -> (s: Self)
        ensures
            s == pad_at_rest(),
    {
        GamePadState::default()
    }
}

/// The bytes every LED directory of the pad's kind starts its name with:
/// `0003:054C:09CC.`.
pub open spec fn led_prefix() -> Seq<u8> {
    seq![48u8, 48, 48, 51, 58, 48, 53, 52, 67, 58, 48, 57, 67, 67, 46]
}

/// The length, in bytes, of an LED directory's path up to the device part:
/// `/sys/class/leds/0003:054C:09CC.0008`.
pub open spec fn led_base_len() -> int {
    35
}

/// `name` starts with the LED prefix.
pub open spec fn is_led_name(name: Seq<u8>) -> bool {
    name.len() >= 15 && name.subrange(0, 15) == led_prefix()
}

/// Whether a directory name, as bytes, is one of the pad's LEDs.
pub fn has_led_prefix(name: &str) -> (b: bool)
    ensures
        b == is_led_name(vstd::utf8::encode_utf8(name@)),
{
    let prefix: [u8; 15] = [48u8, 48, 48, 51, 58, 48, 53, 52, 67, 58, 48, 57, 67, 67, 46];
    let bytes = name.as_bytes();
    if bytes.len() < 15 {
        return false;
    }
    let mut i: usize = 0;
    while i < 15
        invariant
            i <= 15,
            bytes@ == vstd::utf8::encode_utf8(name@),
            bytes@.len() >= 15,
            prefix@ == led_prefix(),
            forall|k: int| 0 <= k < i ==> bytes@[k] == prefix@[k],
        decreases 15 - i,
    {
        if bytes[i] != prefix[i] {
            assert(bytes@.subrange(0, 15)[i as int] != led_prefix()[i as int]);
            return false;
        }
        i = i + 1;
    }
    assert(bytes@.subrange(0, 15) =~= led_prefix());
    true
}

/// The first place in a list of directory names holding an LED of the pad.
pub fn find_led_entry(names: &Vec<String>) -> (r: Option<usize>)
    ensures
        match r {
            Some(i) => i < names.len() && is_led_name(vstd::utf8::encode_utf8(names@[i as int]@))
                && forall|j: int| 0 <= j < i ==> !is_led_name(#[trigger] vstd::utf8::encode_utf8(names@[j]@)),
            None => forall|j: int| 0 <= j < names.len() ==> !is_led_name(#[trigger] vstd::utf8::encode_utf8(names@[j]@)),
        },
{
    let mut i: usize = 0;
    while i < names.len()
        invariant
            i <= names.len(),
            forall|j: int| 0 <= j < i ==> !is_led_name(#[trigger] vstd::utf8::encode_utf8(names@[j]@)),
        decreases names.len() - i,
    {
        if has_led_prefix(names[i].as_str()) {
            return Some(i);
        }
        i = i + 1;
    }
    None
}


/// The pad's coloured lights: the path that their brightness files hang off.
#[derive(Debug, Clone)]
pub struct GamePadLeds {
    basename: String,
}

impl View for GamePadLeds {
    type V = Seq<char>;

    closed spec fn view(&self) -> Seq<char> {
        self.basename@
    }
}

/// One colour of the pad's light.
#[derive(Debug, Clone, Copy, PartialEq, Eq, Structural)]
pub enum LedChannel {
    Red,
    Green,
    Blue,
}

/// The file, below the lights' base path, that sets a colour's brightness.
pub open spec fn channel_file(c: LedChannel) -> Seq<char> {
    match c {
        LedChannel::Red => ":red/brightness"@,
        LedChannel::Green => ":green/brightness"@,
        LedChannel::Blue => ":blue/brightness"@,
    }
}

impl GamePadLeds {
    /// The lights of the LED directory at `path`: its first 35 bytes, the path
    /// up to the device part, become the base path.
    pub fn from_led_path(path: &str) -> (l: GamePadLeds)
        requires
            vstd::utf8::is_char_boundary(vstd::utf8::encode_utf8(path@), led_base_len()),
        ensures
            vstd::utf8::encode_utf8(l@) == vstd::utf8::encode_utf8(path@).subrange(0, led_base_len()),
    {
        let (head, _rest) = path.split_at(35);
        GamePadLeds { basename: head.to_owned() }
    }

    /// The brightness file of one colour.
    pub fn channel_path(&self, c: LedChannel) -> (p: String)
        ensures
            p@ == self@ + channel_file(c),
    {
        let base = self.basename.clone();
        match c {
            LedChannel::Red => base.concat(":red/brightness"),
            LedChannel::Green => base.concat(":green/brightness"),
            LedChannel::Blue => base.concat(":blue/brightness"),
        }
    }
}

} // verus!
