use vstd::prelude::*;

verus! {

/// Carriage return.
pub const CR: u8 = 0x0D;

/// Line feed: the byte that ends a line on input.
pub const LF: u8 = 0x0A;

/// End of line character options.
#[derive(Clone, Copy, Debug, PartialEq, Eq, Structural)]
pub enum Eol {
    /// Carriage return
    Cr,
    /// Carriage return, line feed
    Crlf,
    /// Line feed
    Lf,
}

impl Eol {
    /// The bytes written after each line under this policy.
    pub open spec fn terminator(self) -> Seq<u8> {
        match self {
            Eol::Cr => seq![CR],
            Eol::Crlf => seq![CR, LF],
            Eol::Lf => seq![LF],
        }
    }

    /// The terminator bytes of this policy.
    pub fn bytes(&self) -> (r: &'static [u8])
        ensures
            r@ == self.terminator(),
    {
        match self {
            Eol::Cr => {
                let r: &'static [u8] = &[CR];
                assert(r@ =~= seq![CR]);
                r
            },
            Eol::Crlf => {
                let r: &'static [u8] = &[CR, LF];
                assert(r@ =~= seq![CR, LF]);
                r
            },
            Eol::Lf => {
                let r: &'static [u8] = &[LF];
                assert(r@ =~= seq![LF]);
                r
            },
        }
    }
}

} // verus!
