//! Sets of signals, as handed to the atomically masked wait.

use vstd::prelude::*;

verus! {

/// The interrupt signal.
pub const SIGINT: u8 = 2;

/// The quit signal.
pub const SIGQUIT: u8 = 3;

/// The termination signal.
pub const SIGTERM: u8 = 15;

/// The terminal-resize signal.
pub const SIGWINCH: u8 = 28;

/// The largest signal number.
pub const NCSIG_MAX: u8 = 64;

/// True of the numbers that name a signal.
pub open spec fn is_signal(signo: int) -> bool {
    1 <= signo <= 64
}

/// A set of signals.
#[derive(Clone, Copy, Debug)]
pub struct NcSignalSet {
    member: [bool; 65],
}

impl View for NcSignalSet {
    type V = Set<int>;

    closed spec fn view(&self) -> Set<int> {
        Set::new(|s: int| is_signal(s) && self.member@[s])
    }
}

impl NcSignalSet {
    /// The empty set.
    pub fn new() -> (r: Self)
        ensures
            r@ == Set::<int>::empty(),
    {
        let r = NcSignalSet { member: [false; 65] };
        r
    }

    /// Removes every signal.
    pub fn emptyset(&mut self)
        ensures
            final(self)@ == Set::<int>::empty(),
    {
        self.member = [false; 65];
    }

    /// Adds every signal.
    pub fn fillset(&mut self)
        ensures
            final(self)@ == Set::new(|s: int| is_signal(s)),
    {
        self.member = [true; 65];
    }

    /// Adds one signal; a number that names no signal is refused and changes nothing.
    pub fn addset(&mut self, signo: u8) -> (r: bool)
        ensures
            r == is_signal(signo as int),
            r ==> final(self)@ == old(self)@.insert(signo as int),
            !r ==> final(self)@ == old(self)@,
    {
        if signo < 1 || signo > 64 {
            return false;
        }
        self.member[signo as usize] = true;
        true
    }

    /// Removes one signal; a number that names no signal is refused and changes nothing.
    pub fn delset(&mut self, signo: u8) -> (r: bool)
        ensures
            r == is_signal(signo as int),
            r ==> final(self)@ == old(self)@.remove(signo as int),
            !r ==> final(self)@ == old(self)@,
    {
        if signo < 1 || signo > 64 {
            return false;
        }
        self.member[signo as usize] = false;
        true
    }

    /// Whether the signal is in the set.
    pub fn ismember(&self, signo: u8) -> (r: bool)
        ensures
            r == self@.contains(signo as int),
    {
        if signo < 1 || signo > 64 {
            return false;
        }
        self.member[signo as usize]
    }
}

/// Every signal.
pub open spec fn all_signals() -> Set<int> {
    Set::new(|s: int| is_signal(s))
}

impl NcSignalSet {
    /// The set of every signal.
    pub fn full() -> (r: Self)
        ensures
            r@ == all_signals(),
    {
        let r = NcSignalSet { member: [true; 65] };
        r
    }

    /// The signals of this set that are not in `other`.
    pub fn without(&self, other: &NcSignalSet) -> (r: NcSignalSet)
        ensures
            r@ == self@.difference(other@),
    {
        let mut member: [bool; 65] = [false; 65];
        let mut i: usize = 1;
        while i <= 64
            invariant
                1 <= i <= 65,
                forall|s: int| 1 <= s < i ==> member@[s] == (self.member@[s] && !other.member@[s]),
            decreases 65 - i,
        {
            member[i] = self.member[i] && !other.member[i];
            i = i + 1;
        }
        let r = NcSignalSet { member };
        r
    }
}

} // verus!
