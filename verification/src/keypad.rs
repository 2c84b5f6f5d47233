use vstd::prelude::*;

verus! {

/// State of the sixteen hexadecimal keys, 0x0 through 0xF.
///
/// The host input backend decides which physical event maps to which slot
/// and toggles the slots in place; the machine core only ever reads them,
/// through the key-skip and key-wait opcodes.
pub struct KeyPad {
    pub keys: Vec<bool>,
}

impl KeyPad {
    /// One slot per hexadecimal key.
    pub open spec fn wf(self) -> bool {
        self.keys@.len() == 16
    }

    /// All sixteen keys start released.
    pub fn new() -> (r: KeyPad)
        ensures
            r.wf(),
            forall|k: int| 0 <= k < 16 ==> !r.keys@[k],
    {
        let mut keys: Vec<bool> = Vec::new();
        let mut idx: usize = 0;
        while idx < 16
            invariant
                idx <= 16,
                keys@.len() == idx,
                forall|k: int| 0 <= k < idx ==> !keys@[k],
            decreases 16 - idx,
        {
            keys.push(false);
            idx = idx + 1;
        }
        KeyPad { keys }
    }
}

} // verus!
