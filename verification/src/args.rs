//! Arguments that select which artifacts are built for an interface.

use vstd::prelude::*;
use vstd::string::StringExecFns;
use vstd::string::StrSliceExecFns;

verus! {

/// Names under which the artifacts of one interface are published.
#[derive(Debug, PartialEq, Eq)]
pub struct Args {
    /// The required name of the endpoint.
    pub endpoint_name: String,
    /// The optional name of the client.
    pub client_name: Option<String>,
}

/// Whether `c` is stripped from both ends of an argument: a parenthesis, a
/// double quote or a space.
pub open spec fn is_trimmed(c: char) -> bool {
    c == '(' || c == ')' || c == '"' || c == ' '
}

/// `s` without the stripped characters that it starts with.
pub open spec fn trim_start(s: Seq<char>) -> Seq<char>
    decreases s.len(),
{
    if s.len() > 0 && is_trimmed(s[0]) {
        trim_start(s.drop_first())
    } else {
        s
    }
}

/// `s` without the stripped characters that it ends with.
pub open spec fn trim_end(s: Seq<char>) -> Seq<char>
    decreases s.len(),
{
    if s.len() > 0 && is_trimmed(s.last()) {
        trim_end(s.drop_last())
    } else {
        s
    }
}

/// `s` without the stripped characters at either end.
pub open spec fn trim(s: Seq<char>) -> Seq<char> {
    trim_end(trim_start(s))
}

/// The pieces that the commas of `s` part it into, `piece` being what was
/// read of the first one before `s`.
pub open spec fn split_with(s: Seq<char>, piece: Seq<char>) -> Seq<Seq<char>>
    decreases s.len(),
{
    if s.len() == 0 {
        seq![piece]
    } else if s[0] == ',' {
        seq![piece] + split_with(s.drop_first(), Seq::empty())
    } else {
        split_with(s.drop_first(), piece.push(s[0]))
    }
}

/// The pieces that the commas of `s` part it into: one more than it has
/// commas.
pub open spec fn split(s: Seq<char>) -> Seq<Seq<char>> {
    split_with(s, Seq::empty())
}

/// The arguments that a text holds: its comma-separated pieces, each
/// without the stripped characters at either end.
pub open spec fn parsed_args(s: Seq<char>) -> Seq<Seq<char>> {
    split(s).map_values(|piece: Seq<char>| trim(piece))
}

/// The text that pieces make when a comma is put between each two.
pub open spec fn join(pieces: Seq<Seq<char>>) -> Seq<char>
    decreases pieces.len(),
{
    if pieces.len() == 0 {
        Seq::empty()
    } else if pieces.len() == 1 {
        pieces[0]
    } else {
        pieces[0] + seq![','] + join(pieces.drop_first())
    }
}

/// The values of a list of texts.
pub open spec fn names_view(names: Seq<String>) -> Seq<Seq<char>> {
    names.map_values(|n: String| n@)
}

/// Parting a text at its commas loses nothing but the commas: no piece
/// holds a comma, and the pieces joined by commas are the text again.
pub proof fn lemma_split_join(s: Seq<char>)
    ensures
        split(s).len() >= 1,
        join(split(s)) == s,
        forall|i: int| 0 <= i < split(s).len() ==> !(#[trigger] split(s)[i]).contains(','),
{
    lemma_split_with(s, Seq::empty());
    assert(Seq::<char>::empty() + s =~= s);
}

/// `lemma_split_join` for a text whose first piece is partly read.
pub proof fn lemma_split_with(s: Seq<char>, piece: Seq<char>)
    requires
        !piece.contains(','),
    ensures
        split_with(s, piece).len() >= 1,
        join(split_with(s, piece)) == piece + s,
        forall|i: int|
            0 <= i < split_with(s, piece).len() ==> !(#[trigger] split_with(s, piece)[i]).contains(
                ',',
            ),
    decreases s.len(),
{
    if s.len() == 0 {
        assert(piece + s =~= piece);
    } else if s[0] == ',' {
        let rest = split_with(s.drop_first(), Seq::empty());
        let all = split_with(s, piece);
        lemma_split_with(s.drop_first(), Seq::empty());
        assert(all.drop_first() =~= rest);
        assert(Seq::<char>::empty() + s.drop_first() =~= s.drop_first());
        assert(piece + seq![','] + s.drop_first() =~= piece + s);
        assert forall|i: int| 0 <= i < all.len() implies !(#[trigger] all[i]).contains(',') by {
            if i > 0 {
                assert(all[i] == rest[i - 1]);
            }
        }
    } else {
        let longer = piece.push(s[0]);
        assert(!longer.contains(',')) by {
            if longer.contains(',') {
                let k = choose|k: int| 0 <= k < longer.len() && longer[k] == ',';
                assert(piece[k] == ',');
            }
        }
        lemma_split_with(s.drop_first(), longer);
        assert(longer + s.drop_first() =~= piece + s);
    }
}

/// Where the first `k` characters of `s` are stripped and the next one is
/// not, `trim_start` drops exactly those `k`.
pub proof fn lemma_trim_start(s: Seq<char>, k: int)
    requires
        0 <= k <= s.len(),
        forall|j: int| 0 <= j < k ==> is_trimmed(#[trigger] s[j]),
        k < s.len() ==> !is_trimmed(s[k]),
    ensures
        trim_start(s) == s.skip(k),
    decreases k,
{
    if k == 0 {
        assert(s.skip(0) =~= s);
    } else {
        let rest = s.drop_first();
        assert forall|j: int| 0 <= j < k - 1 implies is_trimmed(#[trigger] rest[j]) by {
            assert(rest[j] == s[j + 1]);
        }
        lemma_trim_start(rest, k - 1);
        assert(rest.skip(k - 1) =~= s.skip(k));
    }
}

/// Where the last characters of `s` from `k` on are stripped and the one
/// before them is not, `trim_end` keeps exactly the first `k`.
pub proof fn lemma_trim_end(s: Seq<char>, k: int)
    requires
        0 <= k <= s.len(),
        forall|j: int| k <= j < s.len() ==> is_trimmed(#[trigger] s[j]),
        k > 0 ==> !is_trimmed(s[k - 1]),
    ensures
        trim_end(s) == s.take(k),
    decreases s.len() - k,
{
    if k == s.len() {
        assert(s.take(k) =~= s);
    } else {
        let rest = s.drop_last();
        assert forall|j: int| k <= j < rest.len() implies is_trimmed(#[trigger] rest[j]) by {
            assert(rest[j] == s[j]);
        }
        lemma_trim_end(rest, k);
        assert(rest.take(k) =~= s.take(k));
    }
}

/// Cuts the piece of `args` between `from` and `to` and strips its ends.
fn trimmed_piece(args: &str, from: usize, to: usize) -> (piece: String)
    requires
        from <= to <= args@.len(),
    ensures
        piece@ == trim(args@.subrange(from as int, to as int)),
{
    let ghost raw = args@.subrange(from as int, to as int);
    let mut a: usize = from;
    while a < to && is_trimmed_char(args.get_char(a))
        invariant
            from <= a <= to <= args@.len(),
            raw == args@.subrange(from as int, to as int),
            forall|j: int| 0 <= j < a - from ==> is_trimmed(#[trigger] raw[j]),
        decreases to - a,
    {
        a = a + 1;
    }
    proof {
        lemma_trim_start(raw, a - from);
    }
    let ghost rest = raw.skip(a - from);
    let mut b: usize = to;
    while b > a && is_trimmed_char(args.get_char(b - 1))
        invariant
            from <= a <= b <= to <= args@.len(),
            raw == args@.subrange(from as int, to as int),
            rest == raw.skip(a - from),
            forall|j: int| b - a <= j < rest.len() ==> is_trimmed(#[trigger] rest[j]),
        decreases b,
    {
        b = b - 1;
    }
    proof {
        if b > a {
            assert(rest[b - a - 1] == args@[b - 1]);
        }
        lemma_trim_end(rest, b - a);
        assert(rest.take(b - a) =~= args@.subrange(a as int, b as int));
    }
    String::from_str(args.substring_char(a, b))
}

/// Tests whether `c` is stripped from the ends of an argument.
fn is_trimmed_char(c: char) -> (stripped: bool)
    ensures
        stripped == is_trimmed(c),
{
    c == '(' || c == ')' || c == '"' || c == ' '
}

/// Extracts the arguments of a text as a vector of strings: the text is
/// parted at its commas, and each piece loses the parentheses, double
/// quotes and spaces at its ends.
///
/// The text `(Foo, Bar)` holds the arguments `Foo` and `Bar`.
pub fn parse_args_to_vec(args: &str) -> (pieces: Vec<String>)
    ensures
        names_view(pieces@) == parsed_args(args@),
        pieces@.len() == parsed_args(args@).len(),
        pieces@.len() >= 1,
{
    let len = args.unicode_len();
    let ghost text = args@;
    let ghost mut raw: Seq<Seq<char>> = Seq::empty();
    let mut pieces: Vec<String> = Vec::new();
    let mut start: usize = 0;
    let mut i: usize = 0;
    proof {
        assert(text.skip(0) =~= text);
        assert(text.subrange(0, 0) =~= Seq::<char>::empty());
    }
    while i < len
        invariant
            text == args@,
            len == text.len(),
            start <= i <= len,
            split(text) == raw + split_with(text.skip(i as int), text.subrange(start as int, i as int)),
            pieces@.len() == raw.len(),
            forall|j: int| 0 <= j < raw.len() ==> (#[trigger] pieces@[j])@ == trim(raw[j]),
        decreases len - i,
    {
        let c = args.get_char(i);
        proof {
            assert(text.skip(i as int)[0] == text[i as int]);
            assert(text.skip(i as int).drop_first() =~= text.skip(i + 1));
        }
        if c == ',' {
            let piece = trimmed_piece(args, start, i);
            pieces.push(piece);
            proof {
                let done = text.subrange(start as int, i as int);
                assert(raw + (seq![done] + split_with(text.skip(i + 1), Seq::empty())) =~= raw.push(
                    done,
                ) + split_with(text.skip(i + 1), Seq::empty()));
                raw = raw.push(done);
                assert(text.subrange(i + 1, i + 1) =~= Seq::<char>::empty());
            }
            start = i + 1;
        } else {
            proof {
                assert(text.subrange(start as int, i as int).push(text[i as int])
                    =~= text.subrange(start as int, i + 1));
            }
        }
        i = i + 1;
    }
    let piece = trimmed_piece(args, start, len);
    pieces.push(piece);
    proof {
        assert(text.skip(len as int) =~= Seq::<char>::empty());
        let last = text.subrange(start as int, len as int);
        assert(split(text) =~= raw.push(last));
        assert(names_view(pieces@) =~= parsed_args(text));
    }
    pieces
}

/// Parses a text as the arguments of one interface: the endpoint name and,
/// optionally, the client name.
pub fn parse_args(args: &str) -> (parsed: Args)
    requires
        1 <= parsed_args(args@).len() <= 2,
    ensures
        parsed.endpoint_name@ == parsed_args(args@)[0],
        parsed_args(args@).len() == 1 ==> parsed.client_name is None,
        parsed_args(args@).len() == 2 ==> parsed.client_name is Some
            && parsed.client_name->Some_0@ == parsed_args(args@)[1],
{
    let mut pieces = parse_args_to_vec(args);
    assert forall|j: int| 0 <= j < pieces@.len() implies (#[trigger] pieces@[j])@ == parsed_args(
        args@,
    )[j] by {
        assert(names_view(pieces@)[j] == pieces@[j]@);
    }
    let client_name = if pieces.len() == 2 {
        pieces.pop()
    } else {
        None
    };
    let endpoint_name = pieces.remove(0);
    Args { endpoint_name, client_name }
}

impl Args {
    /// Returns the given endpoint name.
    pub fn endpoint_name(&self) -> (name: &str)
        ensures
            name@ == self.endpoint_name@,
    {
        self.endpoint_name.as_str()
    }

    /// Returns the optional client name.
    pub fn client_name(&self) -> (name: Option<&str>)
        ensures
            name is Some <==> self.client_name is Some,
            name is Some ==> name->Some_0@ == self.client_name->Some_0@,
    {
        match &self.client_name {
            Some(name) => Some(name.as_str()),
            None => None,
        }
    }
}

} // verus!
