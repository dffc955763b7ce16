use vstd::prelude::*;

verus! {

/// A virtual key code: the key half of a hotkey, an extra key gated at
/// dispatch time, or the subject of a key-state query.
///
/// The named variants cover the keys this library's own vocabulary spells
/// out; any other native code can be carried in `Custom`.
#[derive(Debug, Clone, Copy, PartialEq, Eq, Structural)]
pub enum VKey {
    Back,
    Tab,
    Return,
    Escape,
    Space,
    Left,
    Up,
    Right,
    Down,
    A,
    B,
    C,
    /// Any other native key code, given directly.
    Custom(i32),
}

impl VKey {
    /// The operating system's native numeric code for this key.
    pub open spec fn spec_vk_code(self) -> i32 {
        match self {
            VKey::Back => 0x08,
            VKey::Tab => 0x09,
            VKey::Return => 0x0D,
            VKey::Escape => 0x1B,
            VKey::Space => 0x20,
            VKey::Left => 0x25,
            VKey::Up => 0x26,
            VKey::Right => 0x27,
            VKey::Down => 0x28,
            VKey::A => 0x41,
            VKey::B => 0x42,
            VKey::C => 0x43,
            VKey::Custom(code) => code,
        }
    }

    /// Translate this key to the operating system's native numeric code.
    pub fn to_vk_code(&self) -> (r: i32)
        ensures
            r == self.spec_vk_code(),
    {
        match self {
            VKey::Back => 0x08,
            VKey::Tab => 0x09,
            VKey::Return => 0x0D,
            VKey::Escape => 0x1B,
            VKey::Space => 0x20,
            VKey::Left => 0x25,
            VKey::Up => 0x26,
            VKey::Right => 0x27,
            VKey::Down => 0x28,
            VKey::A => 0x41,
            VKey::B => 0x42,
            VKey::C => 0x43,
            VKey::Custom(code) => *code,
        }
    }
}

/// A modifier key, combined with others into the bitmask that qualifies a
/// hotkey binding.
#[derive(Debug, Clone, Copy, PartialEq, Eq, Structural)]
pub enum ModKey {
    Alt,
    Control,
    Shift,
    Win,
}

/// The flag the operating system understands as "do not re-fire the hotkey
/// on auto-repeat while the combination is held down". Every registration
/// request carries it implicitly.
pub const MOD_NOREPEAT: u32 = 0x4000;

impl ModKey {
    /// The operating system's flag bit for this modifier.
    pub open spec fn spec_mod_mask(self) -> u32 {
        match self {
            ModKey::Alt => 0x0001,
            ModKey::Control => 0x0002,
            ModKey::Shift => 0x0004,
            ModKey::Win => 0x0008,
        }
    }

    /// Translate this modifier to the operating system's flag bit.
    pub fn mod_mask(&self) -> (r: u32)
        ensures
            r == self.spec_mod_mask(),
    {
        match self {
            ModKey::Alt => 0x0001,
            ModKey::Control => 0x0002,
            ModKey::Shift => 0x0004,
            ModKey::Win => 0x0008,
        }
    }

    /// The bitmask that combines the flag bits of the given modifiers,
    /// in order.
    pub open spec fn spec_combine(keys: Seq<ModKey>) -> u32
        decreases keys.len(),
    {
        if keys.len() == 0 {
            0u32
        } else {
            Self::spec_combine(keys.drop_last()) | keys.last().spec_mod_mask()
        }
    }

    /// Combine a list of modifiers into one bitmask for the operating
    /// system's registration call.
    pub fn combine(keys: &Vec<ModKey>) -> (r: u32)
        ensures
            r == Self::spec_combine(keys@),
    {
        let mut mask: u32 = 0;
        let mut i: usize = 0;
        while i < keys.len()
            invariant
                i <= keys.len(),
                mask == Self::spec_combine(keys@.subrange(0, i as int)),
            decreases keys.len() - i,
        {
            mask = mask | keys[i].mod_mask();
            proof {
                assert(keys@.subrange(0, i + 1).drop_last() =~= keys@.subrange(0, i as int));
            }
            i = i + 1;
        }
        proof {
            assert(keys@.subrange(0, keys@.len() as int) =~= keys@);
        }
        mask
    }
}

} // verus!
