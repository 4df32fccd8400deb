//! Identifiers: asset symbols and account addresses.

use vstd::prelude::*;

verus! {

/// Longest symbol, in characters.
pub const MAX_SYMBOL_LEN: usize = 32;

/// `c` may stand in a symbol: `a-z`, `A-Z`, `0-9` or `_`.
pub open spec fn is_symbol_char(c: char) -> bool {
    ||| 'a' <= c <= 'z'
    ||| 'A' <= c <= 'Z'
    ||| '0' <= c <= '9'
    ||| c == '_'
}

/// `text` is the text of a symbol: at most 32 characters, each allowed.
pub open spec fn is_symbol(text: Seq<char>) -> bool {
    &&& text.len() <= MAX_SYMBOL_LEN
    &&& forall|i: int| 0 <= i < text.len() ==> is_symbol_char(#[trigger] text[i])
}

/// A short identifier with a limited character set, such as an asset code.
///
/// Every value satisfies [`is_symbol`].
#[derive(Debug, PartialEq, Eq)]
pub struct Symbol {
    text: String,
}

impl View for Symbol {
    type V = Seq<char>;

    closed spec fn view(&self) -> Seq<char> {
        self.text@
    }
}

impl Symbol {
    #[verifier::type_invariant]
    spec fn valid(self) -> bool {
        is_symbol(self.text@)
    }

    /// The symbol with this text, or `None` if the text is too long or holds a
    /// character that no symbol may hold.
    pub fn new(text: &str) -> (symbol: Option<Symbol>)
        ensures
            symbol is Some <==> is_symbol(text@),
            symbol matches Some(s) ==> s@ == text@,
    {
        let len: usize = text.unicode_len();
        if len > MAX_SYMBOL_LEN {
            return None;
        }
        let mut i: usize = 0;
        while i < len
            invariant
                i <= len,
                len == text@.len(),
                forall|j: int| 0 <= j < i ==> is_symbol_char(#[trigger] text@[j]),
            decreases len - i,
        {
            let c = text.get_char(i);
            let allowed = ('a' <= c && c <= 'z') || ('A' <= c && c <= 'Z') || ('0' <= c && c <= '9')
                || c == '_';
            if !allowed {
                return None;
            }
            i = i + 1;
        }
        Some(Symbol { text: text.to_owned() })
    }

    /// The text of the symbol.
    pub fn as_str(&self) -> (text: &str)
        ensures
            text@ == self@,
            is_symbol(self@),
    {
        proof {
            use_type_invariant(self);
        }
        self.text.as_str()
    }

    /// Whether two symbols have the same text.
    pub fn same(&self, other: &Symbol) -> (equal: bool)
        ensures
            equal == (self@ == other@),
    {
        self.text == other.text
    }
}

impl Clone for Symbol {
    fn clone(&self) -> (copy: Self)
        ensures
            copy@ == self@,
    {
        proof {
            use_type_invariant(self);
        }
        Symbol { text: self.text.clone() }
    }
}

/// An account or contract address, known by its text form.
///
/// The router never looks inside an address: it compares, stores and publishes it.
#[derive(Debug, PartialEq, Eq)]
pub struct Address {
    strkey: String,
}

impl View for Address {
    type V = Seq<char>;

    closed spec fn view(&self) -> Seq<char> {
        self.strkey@
    }
}

impl Address {
    /// The address with this text form.
    pub fn new(strkey: &str) -> (address: Address)
        ensures
            address@ == strkey@,
    {
        Address { strkey: strkey.to_owned() }
    }

    /// The text form of the address.
    pub fn as_str(&self) -> (strkey: &str)
        ensures
            strkey@ == self@,
    {
        self.strkey.as_str()
    }

    /// Whether two addresses are one and the same.
    pub fn same(&self, other: &Address) -> (equal: bool)
        ensures
            equal == (self@ == other@),
    {
        self.strkey == other.strkey
    }
}

impl Clone for Address {
    fn clone(&self) -> (copy: Self)
        ensures
            copy@ == self@,
    {
        Address { strkey: self.strkey.clone() }
    }
}

} // verus!
