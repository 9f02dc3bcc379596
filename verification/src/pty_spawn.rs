//! What is decided before the shell is spawned under the pseudo-terminal:
//! which program to run, and the raw mode of the controlling terminal.
//!
//! The attributes of a terminal are held as plain numbers. Which bit stands
//! for which setting depends on the platform, so the caller hands the bits
//! in by name.

use vstd::prelude::*;

verus! {

/// The attributes of a terminal: four words of flags and the control
/// characters.
#[derive(Debug, PartialEq, Eq)]
pub struct Attributes {
    pub c_iflag: u64,
    pub c_oflag: u64,
    pub c_cflag: u64,
    pub c_lflag: u64,
    pub c_cc: Vec<u8>,
}

/// Terminal attributes with the control characters as a sequence.
pub struct AttributesView {
    pub c_iflag: u64,
    pub c_oflag: u64,
    pub c_cflag: u64,
    pub c_lflag: u64,
    pub c_cc: Seq<u8>,
}

impl View for Attributes {
    type V = AttributesView;

    open spec fn view(&self) -> AttributesView {
        AttributesView {
            c_iflag: self.c_iflag,
            c_oflag: self.c_oflag,
            c_cflag: self.c_cflag,
            c_lflag: self.c_lflag,
            c_cc: self.c_cc@,
        }
    }
}

impl Clone for Attributes {
    fn clone(&self) -> (copy: Attributes)
        ensures
            copy@ == self@,
    {
        Attributes {
            c_iflag: self.c_iflag,
            c_oflag: self.c_oflag,
            c_cflag: self.c_cflag,
            c_lflag: self.c_lflag,
            c_cc: self.c_cc.clone(),
        }
    }
}

/// The platform's bits for the settings that raw mode touches, and its
/// slots for the two control characters that it sets.
#[derive(Clone, Copy, Debug, PartialEq, Eq, Structural)]
pub struct Names {
    pub echo: u64,
    pub icanon: u64,
    pub iexten: u64,
    pub isig: u64,
    pub brkint: u64,
    pub icrnl: u64,
    pub inpck: u64,
    pub istrip: u64,
    pub ixon: u64,
    pub csize: u64,
    pub parenb: u64,
    pub cs8: u64,
    pub opost: u64,
    pub vmin: usize,
    pub vtime: usize,
}

impl Names {
    /// The local flags that raw mode switches off.
    pub open spec fn local_off(self) -> u64 {
        self.echo | self.icanon | self.iexten | self.isig
    }

    /// The input flags that raw mode switches off.
    pub open spec fn input_off(self) -> u64 {
        self.brkint | self.icrnl | self.inpck | self.istrip | self.ixon
    }

    /// The control flags that raw mode switches off.
    pub open spec fn control_off(self) -> u64 {
        self.csize | self.parenb
    }
}

impl AttributesView {
    /// Whether the attributes have the two slots that raw mode sets.
    pub open spec fn has_slots(self, names: Names) -> bool {
        names.vmin < self.c_cc.len() && names.vtime < self.c_cc.len()
    }

    /// The attributes in raw mode: no echo, no line editing, no signal
    /// keys, no mapping of input or output, eight-bit characters
    /// without parity, and reads that return after one byte without a
    /// timeout.
    pub open spec fn raw(self, names: Names) -> AttributesView {
        AttributesView {
            c_iflag: self.c_iflag & !names.input_off(),
            c_oflag: self.c_oflag & !names.opost,
            c_cflag: (self.c_cflag & !names.control_off()) | names.cs8,
            c_lflag: self.c_lflag & !names.local_off(),
            c_cc: self.c_cc.update(names.vmin as int, 1u8).update(names.vtime as int, 0u8),
        }
    }
}

/// The attributes of raw mode for a terminal that has `attributes` now.
pub fn enter_raw_mode(attributes: &Attributes, names: &Names) -> (raw: Attributes)
    requires
        attributes@.has_slots(*names),
    ensures
        raw@ == attributes@.raw(*names),
{
    let mut new_termios = attributes.clone();

    new_termios.c_lflag &= !(names.echo | names.icanon | names.iexten | names.isig);
    new_termios.c_iflag &= !(names.brkint | names.icrnl | names.inpck | names.istrip | names.ixon);
    new_termios.c_cflag &= !(names.csize | names.parenb);
    new_termios.c_cflag |= names.cs8;
    new_termios.c_oflag &= !(names.opost);
    new_termios.c_cc.set(names.vmin, 1);
    new_termios.c_cc.set(names.vtime, 0);

    new_termios
}

/// Clearing bits clears each of them.
proof fn lemma_switched_off(flags: u64, off: u64, flag: u64)
    requires
        flag & off == flag,
    ensures
        (flags & !off) & flag == 0,
{
    assert((flags & !off) & flag == 0) by (bit_vector)
        requires
            flag & off == flag,
    ;
}

/// Each of four flags is part of their union.
proof fn lemma_parts_of_four(a: u64, b: u64, c: u64, d: u64)
    ensures
        a & (a | b | c | d) == a,
        b & (a | b | c | d) == b,
        c & (a | b | c | d) == c,
        d & (a | b | c | d) == d,
{
    assert(a & (a | b | c | d) == a) by (bit_vector);
    assert(b & (a | b | c | d) == b) by (bit_vector);
    assert(c & (a | b | c | d) == c) by (bit_vector);
    assert(d & (a | b | c | d) == d) by (bit_vector);
}

/// Each of five flags is part of their union.
proof fn lemma_parts_of_five(a: u64, b: u64, c: u64, d: u64, e: u64)
    ensures
        a & (a | b | c | d | e) == a,
        b & (a | b | c | d | e) == b,
        c & (a | b | c | d | e) == c,
        d & (a | b | c | d | e) == d,
        e & (a | b | c | d | e) == e,
{
    assert(a & (a | b | c | d | e) == a) by (bit_vector);
    assert(b & (a | b | c | d | e) == b) by (bit_vector);
    assert(c & (a | b | c | d | e) == c) by (bit_vector);
    assert(d & (a | b | c | d | e) == d) by (bit_vector);
    assert(e & (a | b | c | d | e) == e) by (bit_vector);
}

/// In raw mode every setting that raw mode switches off is off, whatever
/// it was before, and characters have eight bits.
pub proof fn lemma_raw_mode_switches_off(attributes: AttributesView, names: Names)
    ensures
        attributes.raw(names).c_lflag & names.echo == 0,
        attributes.raw(names).c_lflag & names.icanon == 0,
        attributes.raw(names).c_lflag & names.iexten == 0,
        attributes.raw(names).c_lflag & names.isig == 0,
        attributes.raw(names).c_iflag & names.brkint == 0,
        attributes.raw(names).c_iflag & names.icrnl == 0,
        attributes.raw(names).c_iflag & names.inpck == 0,
        attributes.raw(names).c_iflag & names.istrip == 0,
        attributes.raw(names).c_iflag & names.ixon == 0,
        attributes.raw(names).c_oflag & names.opost == 0,
        attributes.raw(names).c_cflag & names.cs8 == names.cs8,
{
    let local = names.local_off();
    lemma_parts_of_four(names.echo, names.icanon, names.iexten, names.isig);
    lemma_switched_off(attributes.c_lflag, local, names.echo);
    lemma_switched_off(attributes.c_lflag, local, names.icanon);
    lemma_switched_off(attributes.c_lflag, local, names.iexten);
    lemma_switched_off(attributes.c_lflag, local, names.isig);
    let input = names.input_off();
    lemma_parts_of_five(names.brkint, names.icrnl, names.inpck, names.istrip, names.ixon);
    lemma_switched_off(attributes.c_iflag, input, names.brkint);
    lemma_switched_off(attributes.c_iflag, input, names.icrnl);
    lemma_switched_off(attributes.c_iflag, input, names.inpck);
    lemma_switched_off(attributes.c_iflag, input, names.istrip);
    lemma_switched_off(attributes.c_iflag, input, names.ixon);
    let post = names.opost;
    assert(post & post == post) by (bit_vector);
    lemma_switched_off(attributes.c_oflag, post, post);
    let kept = attributes.c_cflag & !names.control_off();
    let eight = names.cs8;
    assert((kept | eight) & eight == eight) by (bit_vector);
}

/// Raw mode leaves alone every bit that it does not name.
pub proof fn lemma_raw_mode_leaves_the_rest(attributes: AttributesView, names: Names, flag: u64)
    ensures
        flag & names.local_off() == 0 ==> attributes.raw(names).c_lflag & flag
            == attributes.c_lflag & flag,
        flag & names.input_off() == 0 ==> attributes.raw(names).c_iflag & flag
            == attributes.c_iflag & flag,
        flag & names.opost == 0 ==> attributes.raw(names).c_oflag & flag == attributes.c_oflag
            & flag,
        flag & names.control_off() == 0 && flag & names.cs8 == 0 ==> attributes.raw(
            names,
        ).c_cflag & flag == attributes.c_cflag & flag,
{
    let l = attributes.c_lflag;
    let lo = names.local_off();
    assert(flag & lo == 0 ==> (l & !lo) & flag == l & flag) by (bit_vector);
    let i = attributes.c_iflag;
    let io = names.input_off();
    assert(flag & io == 0 ==> (i & !io) & flag == i & flag) by (bit_vector);
    let o = attributes.c_oflag;
    let oo = names.opost;
    assert(flag & oo == 0 ==> (o & !oo) & flag == o & flag) by (bit_vector);
    let c = attributes.c_cflag;
    let co = names.control_off();
    let on = names.cs8;
    assert(flag & co == 0 && flag & on == 0 ==> ((c & !co) | on) & flag == c & flag)
        by (bit_vector);
}

/// The program to run under the pseudo-terminal: what the environment
/// names as the shell, or `bash`.
pub fn shell(named: Option<String>) -> (program: String)
    ensures
        program@ == match named {
            Some(name) => name@,
            None => "bash"@,
        },
{
    match named {
        Some(name) => name,
        None => "bash".to_owned(),
    }
}

} // verus!
