use vstd::prelude::*;

verus! {

/// The number of bytes needed to store one character's code point.
///
/// Ordered by capacity: `OneByte` < `TwoBytes` < `FourBytes`.
#[derive(Debug, Clone, Copy)]
pub enum BytesPerCharacter {
    OneByte,
    TwoBytes,
    FourBytes,
}

/// The byte count that a width stands for.
pub open spec fn width_bytes(w: BytesPerCharacter) -> nat {
    match w {
        BytesPerCharacter::OneByte => 1,
        BytesPerCharacter::TwoBytes => 2,
        BytesPerCharacter::FourBytes => 4,
    }
}

/// The minimum width able to hold a code point: one byte up to 0xFF
/// (the full Latin-1 range), two bytes up to 0xFFFF (the Basic
/// Multilingual Plane), four bytes beyond.
pub open spec fn width_for_code(code: u32) -> BytesPerCharacter {
    if code <= 0xFF {
        BytesPerCharacter::OneByte
    } else if code <= 0xFFFF {
        BytesPerCharacter::TwoBytes
    } else {
        BytesPerCharacter::FourBytes
    }
}

/// The minimum width able to hold a character's code point.
pub open spec fn char_width(ch: char) -> BytesPerCharacter {
    width_for_code(ch as u32)
}

/// The wider of two byte counts.
pub open spec fn wider(a: nat, b: nat) -> nat {
    if a >= b {
        a
    } else {
        b
    }
}

/// The byte count needed so that every code point of the sequence fits:
/// the maximum of the per-code widths, and zero for the empty sequence.
pub open spec fn required_width(codes: Seq<u32>) -> nat
    decreases codes.len(),
{
    if codes.len() == 0 {
        0
    } else {
        wider(required_width(codes.drop_last()), width_bytes(width_for_code(codes.last())))
    }
}

/// Classify one character by the minimum storage width that holds its
/// code point.
pub fn bytes_to_encode_character(ch: char) -> (w: BytesPerCharacter)
    ensures
        w == char_width(ch),
{
    if ch as u32 <= 0xFF {
        return BytesPerCharacter::OneByte;
    }
    if ch as u32 <= 0xFFFF {
        return BytesPerCharacter::TwoBytes;
    }
    BytesPerCharacter::FourBytes
}

/// The storage behind a buffer: either empty, or a vector of fixed-width
/// code units, one per character appended so far.
#[derive(Debug, Clone)]
pub enum ConstantTimeStringImpl {
    Empty,
    OneByte(Vec<u8>),
    TwoBytes(Vec<u16>),
    FourBytes(Vec<u32>),
}

impl ConstantTimeStringImpl {
    /// The code points stored, in order, each read back as a `u32`.
    pub open spec fn elems(self) -> Seq<u32> {
        match self {
            ConstantTimeStringImpl::Empty => Seq::empty(),
            ConstantTimeStringImpl::OneByte(v) => v@.map(|i: int, u: u8| u as u32),
            ConstantTimeStringImpl::TwoBytes(v) => v@.map(|i: int, u: u16| u as u32),
            ConstantTimeStringImpl::FourBytes(v) => v@,
        }
    }

    /// The current unit width in bytes; zero while nothing was appended.
    pub open spec fn width(self) -> nat {
        match self {
            ConstantTimeStringImpl::Empty => 0,
            ConstantTimeStringImpl::OneByte(_) => 1,
            ConstantTimeStringImpl::TwoBytes(_) => 2,
            ConstantTimeStringImpl::FourBytes(_) => 4,
        }
    }

    /// Widen the storage so that its unit width is at least `minimum`,
    /// keeping every stored code point at its position and numeric value.
    /// Storage that is already wide enough is returned unchanged; empty
    /// storage becomes an empty vector of the requested width.
    pub fn grow(self, minimum: BytesPerCharacter) -> (r: Self)
        ensures
            r.elems() == self.elems(),
            r.width() == wider(self.width(), width_bytes(minimum)),
    {
        match self {
            ConstantTimeStringImpl::Empty => {
                match minimum {
                    BytesPerCharacter::OneByte => ConstantTimeStringImpl::OneByte(Vec::new()),
                    BytesPerCharacter::TwoBytes => ConstantTimeStringImpl::TwoBytes(Vec::new()),
                    BytesPerCharacter::FourBytes => ConstantTimeStringImpl::FourBytes(Vec::new()),
                }
            }
            ConstantTimeStringImpl::OneByte(old_content) => {
                match minimum {
                    BytesPerCharacter::OneByte => ConstantTimeStringImpl::OneByte(old_content),
                    BytesPerCharacter::TwoBytes => {
                        let mut new_content: Vec<u16> = Vec::with_capacity(old_content.len());
                        let mut idx: usize = 0;
                        while idx < old_content.len()
                            invariant
                                idx <= old_content.len(),
                                new_content@.len() == idx as int,
                                forall|j: int|
                                    0 <= j < idx ==> new_content@[j] == old_content@[j] as u16,
                            decreases old_content.len() - idx,
                        {
                            new_content.push(old_content[idx] as u16);
                            idx = idx + 1;
                        }
                        proof {
                            assert(new_content@.map(|i: int, u: u16| u as u32) =~= old_content@.map(
                                |i: int, u: u8| u as u32,
                            ));
                        }
                        ConstantTimeStringImpl::TwoBytes(new_content)
                    }
                    BytesPerCharacter::FourBytes => {
                        let mut new_content: Vec<u32> = Vec::with_capacity(old_content.len());
                        let mut idx: usize = 0;
                        while idx < old_content.len()
                            invariant
                                idx <= old_content.len(),
                                new_content@.len() == idx as int,
                                forall|j: int|
                                    0 <= j < idx ==> new_content@[j] == old_content@[j] as u32,
                            decreases old_content.len() - idx,
                        {
                            new_content.push(old_content[idx] as u32);
                            idx = idx + 1;
                        }
                        proof {
                            assert(new_content@ =~= old_content@.map(|i: int, u: u8| u as u32));
                        }
                        ConstantTimeStringImpl::FourBytes(new_content)
                    }
                }
            }
            ConstantTimeStringImpl::TwoBytes(old_content) => {
                match minimum {
                    BytesPerCharacter::OneByte | BytesPerCharacter::TwoBytes => {
                        ConstantTimeStringImpl::TwoBytes(old_content)
                    }
                    BytesPerCharacter::FourBytes => {
                        let mut new_content: Vec<u32> = Vec::with_capacity(old_content.len());
                        let mut idx: usize = 0;
                        while idx < old_content.len()
                            invariant
                                idx <= old_content.len(),
                                new_content@.len() == idx as int,
                                forall|j: int|
                                    0 <= j < idx ==> new_content@[j] == old_content@[j] as u32,
                            decreases old_content.len() - idx,
                        {
                            new_content.push(old_content[idx] as u32);
                            idx = idx + 1;
                        }
                        proof {
                            assert(new_content@ =~= old_content@.map(|i: int, u: u16| u as u32));
                        }
                        ConstantTimeStringImpl::FourBytes(new_content)
                    }
                }
            }
            ConstantTimeStringImpl::FourBytes(old_content) => {
                ConstantTimeStringImpl::FourBytes(old_content)
            }
        }
    }
}

/// A character buffer that stores its content at the narrowest unit width
/// able to represent every character appended so far, widening in place
/// (and never narrowing) as wider characters arrive.
#[derive(Debug, Clone)]
pub struct ConstantTimeString {
    pub content: ConstantTimeStringImpl,
}

impl ConstantTimeString {
    /// The code points appended so far, in order.
    pub open spec fn elems(self) -> Seq<u32> {
        self.content.elems()
    }

    /// The current unit width in bytes.
    pub open spec fn width(self) -> nat {
        self.content.width()
    }

    /// A fresh buffer: empty storage, no characters, width zero.
    pub fn new() -> (r: Self)
        ensures
            r.content is Empty,
            r.elems() == Seq::<u32>::empty(),
            r.width() == 0,
    {
        Self { content: ConstantTimeStringImpl::Empty }
    }

    /// Append one character: the stored sequence grows by exactly that
    /// character's code point, and the width becomes the wider of the
    /// current width and the character's classified width. Appending
    /// never fails and never narrows the storage.
    pub fn push(&mut self, ch: char)
        ensures
            final(self).elems() == old(self).elems().push(ch as u32),
            final(self).width() == wider(old(self).width(), width_bytes(char_width(ch))),
            final(self).width() >= old(self).width(),
            !(final(self).content is Empty),
            old(self).width() == required_width(old(self).elems()) ==> final(self).width()
                == required_width(final(self).elems()),
    {
        let width = bytes_to_encode_character(ch);
        let mut taken = ConstantTimeStringImpl::Empty;
        core::mem::swap(&mut taken, &mut self.content);
        let ghost previous = taken;
        let mut grown = taken.grow(width);
        match &mut grown {
            ConstantTimeStringImpl::Empty => {
                proof {
                    assert(false);
                }
            }
            ConstantTimeStringImpl::OneByte(content) => {
                content.push(ch as u8);
            }
            ConstantTimeStringImpl::TwoBytes(content) => {
                content.push(ch as u16);
            }
            ConstantTimeStringImpl::FourBytes(content) => {
                content.push(ch as u32);
            }
        }
        proof {
            assert(grown.elems() =~= previous.elems().push(ch as u32));
            if old(self).width() == required_width(old(self).elems()) {
                lemma_append_width_is_running_max(*old(self), Self { content: grown }, ch);
            }
        }
        self.content = grown;
    }
}

impl Default for ConstantTimeString {
    /// The default buffer is the fresh, empty one.
    fn default() -> (r: Self)
        ensures
            r.content is Empty,
            r.elems() == Seq::<u32>::empty(),
            r.width() == 0,
    {
        ConstantTimeString::new()
    }
}

/// Appending one character to a fresh buffer yields a buffer whose width
/// is exactly that character's classified width and whose stored sequence
/// holds exactly that character's code point.
pub proof fn lemma_first_append(before: ConstantTimeString, after: ConstantTimeString, ch: char)
    requires
        before.width() == 0,
        before.elems().len() == 0,
        after.elems() == before.elems().push(ch as u32),
        after.width() == wider(before.width(), width_bytes(char_width(ch))),
    ensures
        after.width() == width_bytes(char_width(ch)),
        after.elems() =~= seq![ch as u32],
{
}

/// The width after an append is the maximum over all characters appended
/// so far: it never decreases, and a character no wider than the current
/// width leaves it unchanged.
pub proof fn lemma_append_width_is_running_max(
    before: ConstantTimeString,
    after: ConstantTimeString,
    ch: char,
)
    requires
        before.width() == required_width(before.elems()),
        after.elems() == before.elems().push(ch as u32),
        after.width() == wider(before.width(), width_bytes(char_width(ch))),
    ensures
        after.width() == required_width(after.elems()),
        after.width() >= before.width(),
        width_bytes(char_width(ch)) <= before.width() ==> after.width() == before.width(),
{
    assert(after.elems().drop_last() =~= before.elems());
}

} // verus!
