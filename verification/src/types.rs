//! The vocabulary of argument types and the canonical names they are hashed
//! and published under.

use vstd::prelude::*;
use vstd::string::StringExecFns;

verus! {

/// The type of one argument or return value of a callable item.
#[derive(Debug, PartialEq, Eq)]
pub enum ParamType {
    /// Unsigned integer of the given width in bits.
    Uint(u16),
    /// Signed integer of the given width in bits.
    Int(u16),
    /// Boolean.
    Bool,
    /// Account identifier.
    Address,
    /// Dynamically sized byte sequence.
    Bytes,
    /// Dynamically sized text.
    Text,
    /// Array of a fixed number of elements.
    FixedArray(Box<ParamType>, u32),
    /// Dynamically sized array.
    Array(Box<ParamType>),
}

/// The character that stands for a single decimal digit.
pub open spec fn digit_char(d: nat) -> char
    recommends
        d < 10,
{
    if d == 0 {
        '0'
    } else if d == 1 {
        '1'
    } else if d == 2 {
        '2'
    } else if d == 3 {
        '3'
    } else if d == 4 {
        '4'
    } else if d == 5 {
        '5'
    } else if d == 6 {
        '6'
    } else if d == 7 {
        '7'
    } else if d == 8 {
        '8'
    } else {
        '9'
    }
}

/// Decimal notation of a natural number, without leading zeros.
pub open spec fn decimal(n: nat) -> Seq<char>
    decreases n,
{
    if n < 10 {
        seq![digit_char(n)]
    } else {
        decimal(n / 10).push(digit_char(n % 10))
    }
}

/// Comma-joined canonical names of a list of types.
pub open spec fn canonical_list(types: Seq<ParamType>) -> Seq<char>
    decreases types.len(),
{
    if types.len() == 0 {
        Seq::empty()
    } else if types.len() == 1 {
        types[0].canonical_view()
    } else {
        canonical_list(types.drop_last()) + seq![','] + types.last().canonical_view()
    }
}

impl ParamType {
    /// The canonical name of the type as a sequence of characters.
    pub open spec fn canonical_view(self) -> Seq<char>
        decreases self,
    {
        match self {
            ParamType::Uint(width) => "uint"@ + decimal(width as nat),
            ParamType::Int(width) => "int"@ + decimal(width as nat),
            ParamType::Bool => "bool"@,
            ParamType::Address => "address"@,
            ParamType::Bytes => "bytes"@,
            ParamType::Text => "string"@,
            ParamType::FixedArray(element, len) => element.canonical_view() + seq!['[']
                + decimal(len as nat) + seq![']'],
            ParamType::Array(element) => element.canonical_view() + seq!['[', ']'],
        }
    }

    /// Renders the canonical name of the type.
    pub fn canonical(&self) -> (name: String)
        ensures
            name@ == self.canonical_view(),
        decreases self,
    {
        match self {
            ParamType::Uint(width) => {
                let mut name = String::from_str("uint");
                push_decimal(&mut name, *width as u32);
                name
            },
            ParamType::Int(width) => {
                let mut name = String::from_str("int");
                push_decimal(&mut name, *width as u32);
                name
            },
            ParamType::Bool => String::from_str("bool"),
            ParamType::Address => String::from_str("address"),
            ParamType::Bytes => String::from_str("bytes"),
            ParamType::Text => String::from_str("string"),
            ParamType::FixedArray(element, len) => {
                let mut name = element.canonical();
                proof {
                    reveal_strlit("[");
                    reveal_strlit("]");
                    assert("["@ =~= seq!['[']);
                    assert("]"@ =~= seq![']']);
                }
                name.append("[");
                push_decimal(&mut name, *len);
                name.append("]");
                name
            },
            ParamType::Array(element) => {
                let mut name = element.canonical();
                proof {
                    reveal_strlit("[]");
                    assert("[]"@ =~= seq!['[', ']']);
                }
                name.append("[]");
                name
            },
        }
    }
}

impl Clone for ParamType {
    fn clone(&self) -> (copy: Self)
        ensures
            copy == *self,
        decreases self,
    {
        match self {
            ParamType::Uint(width) => ParamType::Uint(*width),
            ParamType::Int(width) => ParamType::Int(*width),
            ParamType::Bool => ParamType::Bool,
            ParamType::Address => ParamType::Address,
            ParamType::Bytes => ParamType::Bytes,
            ParamType::Text => ParamType::Text,
            ParamType::FixedArray(element, len) => {
                let inner = (**element).clone();
                ParamType::FixedArray(Box::new(inner), *len)
            },
            ParamType::Array(element) => {
                let inner = (**element).clone();
                ParamType::Array(Box::new(inner))
            },
        }
    }
}

/// The one-character text of a decimal digit.
fn digit_text(d: u32) -> (text: &'static str)
    requires
        d < 10,
    ensures
        text@ == seq![digit_char(d as nat)],
{
    proof {
        reveal_strlit("0");
        reveal_strlit("1");
        reveal_strlit("2");
        reveal_strlit("3");
        reveal_strlit("4");
        reveal_strlit("5");
        reveal_strlit("6");
        reveal_strlit("7");
        reveal_strlit("8");
        reveal_strlit("9");
    }
    let text = if d == 0 {
        "0"
    } else if d == 1 {
        "1"
    } else if d == 2 {
        "2"
    } else if d == 3 {
        "3"
    } else if d == 4 {
        "4"
    } else if d == 5 {
        "5"
    } else if d == 6 {
        "6"
    } else if d == 7 {
        "7"
    } else if d == 8 {
        "8"
    } else {
        "9"
    };
    assert(text@ =~= seq![digit_char(d as nat)]);
    text
}

/// Appends the decimal notation of `n` to `out`.
pub fn push_decimal(out: &mut String, n: u32)
    ensures
        final(out)@ == old(out)@ + decimal(n as nat),
    decreases n,
{
    if n >= 10 {
        push_decimal(out, n / 10);
    }
    out.append(digit_text(n % 10));
    assert(out@ =~= old(out)@ + decimal(n as nat));
}

/// Renders the comma-joined canonical names of `types`.
pub fn canonical_types(types: &Vec<ParamType>) -> (text: String)
    ensures
        text@ == canonical_list(types@),
{
    let mut text = String::new();
    let mut i: usize = 0;
    while i < types.len()
        invariant
            i <= types.len(),
            text@ == canonical_list(types@.take(i as int)),
        decreases types.len() - i,
    {
        proof {
            reveal_strlit(",");
            assert(types@.take(i + 1).drop_last() =~= types@.take(i as int));
        }
        if i > 0 {
            text.append(",");
        }
        let name = types[i].canonical();
        text.append(name.as_str());
        assert(text@ =~= canonical_list(types@.take(i + 1)));
        i = i + 1;
    }
    assert(types@.take(types.len() as int) =~= types@);
    text
}

} // verus!
