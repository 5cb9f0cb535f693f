//! Pure text transformations used around the runtime: identifier case
//! conversion for generated bindings and log-message markup escaping.

use vstd::prelude::*;

use crate::enums::MessageType;

verus! {

/// True for the characters `A` through `Z`.
pub open spec fn is_ascii_upper(c: char) -> bool {
    65 <= c as u32 && c as u32 <= 90
}

/// Maps `A`..`Z` to `a`..`z` and leaves every other character unchanged.
pub open spec fn to_ascii_lower(c: char) -> char {
    if is_ascii_upper(c) {
        (c as u32 + 32) as char
    } else {
        c
    }
}

/// What one character past the first contributes to the snake-case form:
/// an underscore plus the lowered character if it is upper case, the
/// character itself otherwise.
pub open spec fn snake_piece(c: char) -> Seq<char> {
    if is_ascii_upper(c) {
        seq!['_', to_ascii_lower(c)]
    } else {
        seq![c]
    }
}

/// The snake-case contribution of every character past the first.
pub open spec fn snake_tail(s: Seq<char>) -> Seq<char>
    decreases s.len(),
{
    if s.len() == 0 {
        Seq::empty()
    } else {
        snake_piece(s[0]) + snake_tail(s.drop_first())
    }
}

/// The snake-case form of a camel-case identifier: the first character
/// lowered, every later upper-case character preceded by an underscore
/// and lowered.
pub open spec fn snake_of(s: Seq<char>) -> Seq<char> {
    if s.len() == 0 {
        Seq::empty()
    } else {
        seq![to_ascii_lower(s[0])] + snake_tail(s.drop_first())
    }
}

/// Relies on char::from_u32: for a code point below the surrogate range it
/// returns the character with exactly that code point.
#[verifier::external_body]
fn char_from_code(u: u32) -> (c: char)
    requires
        97 <= u <= 122,
    ensures
        c == (u as char),
{
    char::from_u32(u).unwrap()
}

/// Relies on String::push: appends the given character to the end of the
/// string.
#[verifier::external_body]
fn push_char(s: &mut String, c: char)
    ensures
        final(s)@ == old(s)@.push(c),
{
    s.push(c)
}

/// Lowers one ASCII upper-case character, leaving all others unchanged.
fn lower_char(c: char) -> (r: char)
    ensures
        r == to_ascii_lower(c),
{
    let u = c as u32;
    if 65 <= u && u <= 90 {
        char_from_code(u + 32)
    } else {
        c
    }
}

proof fn lemma_snake_tail_snoc(s: Seq<char>)
    requires
        s.len() > 0,
    ensures
        snake_tail(s) == snake_tail(s.drop_last()) + snake_piece(s.last()),
    decreases s.len(),
{
    if s.len() == 1 {
        assert(snake_tail(s) == snake_piece(s[0]) + snake_tail(s.drop_first()));
        assert(snake_tail(s.drop_first()) =~= Seq::<char>::empty());
        assert(snake_tail(s.drop_last()) =~= Seq::<char>::empty());
        assert(snake_tail(s) =~= snake_tail(s.drop_last()) + snake_piece(s.last()));
    } else {
        lemma_snake_tail_snoc(s.drop_first());
        assert(s.drop_first().drop_last() =~= s.drop_last().drop_first());
        assert(s.drop_first().last() == s.last());
        assert(s.drop_last()[0] == s[0]);
        assert(snake_tail(s.drop_last()) == snake_piece(s[0]) + snake_tail(
            s.drop_last().drop_first(),
        ));
        assert(snake_tail(s) =~= snake_tail(s.drop_last()) + snake_piece(s.last()));
    }
}

/// Converts a camel-case identifier to snake case: the first character is
/// lowered, and every later ASCII upper-case character is replaced by an
/// underscore followed by its lower-case form.
pub fn camel_case_to_snake_case(name: &str) -> (result: String)
    ensures
        result@ == snake_of(name@),
{
    let mut result = String::new();
    let n = name.unicode_len();
    if n == 0 {
        assert(result@ =~= snake_of(name@));
        return result;
    }
    push_char(&mut result, lower_char(name.get_char(0)));
    let mut i: usize = 1;
    while i < n
        invariant
            1 <= i <= n,
            n == name@.len(),
            result@ == seq![to_ascii_lower(name@[0])] + snake_tail(name@.subrange(1, i as int)),
        decreases n - i,
    {
        let c = name.get_char(i);
        proof {
            let pre = name@.subrange(1, i as int);
            let post = name@.subrange(1, i + 1 as int);
            assert(post.drop_last() =~= pre);
            assert(post.last() == name@[i as int]);
            lemma_snake_tail_snoc(post);
        }
        let u = c as u32;
        if 65 <= u && u <= 90 {
            push_char(&mut result, '_');
            push_char(&mut result, lower_char(c));
            assert(result@ =~= seq![to_ascii_lower(name@[0])] + snake_tail(
                name@.subrange(1, i + 1 as int),
            ));
        } else {
            push_char(&mut result, c);
            assert(result@ =~= seq![to_ascii_lower(name@[0])] + snake_tail(
                name@.subrange(1, i + 1 as int),
            ));
        }
        i = i + 1;
    }
    proof {
        assert(name@.subrange(1, n as int) =~= name@.drop_first());
    }
    result
}

/// A message with every opening bracket replaced by its markup escape, so
/// message text cannot inject markup of its own.
pub open spec fn escape_lb(s: Seq<char>) -> Seq<char>
    decreases s.len(),
{
    if s.len() == 0 {
        Seq::empty()
    } else {
        (if s[0] == '[' {
            seq!['[', 'l', 'b', ']']
        } else {
            seq![s[0]]
        }) + escape_lb(s.drop_first())
    }
}

/// The markup opening a log message of the given severity.
pub open spec fn color_prefix(t: MessageType) -> Seq<char> {
    match t {
        MessageType::MessageOutput => Seq::empty(),
        MessageType::MessageInfo => "[color=blue]"@,
        MessageType::MessageWarning => "[color=orange]"@,
        MessageType::MessageError => "[color=red]"@,
    }
}

/// The markup closing a log message of the given severity.
pub open spec fn color_suffix(t: MessageType) -> Seq<char> {
    match t {
        MessageType::MessageOutput => Seq::empty(),
        _ => "[/color]"@,
    }
}

proof fn lemma_escape_lb_snoc(s: Seq<char>)
    requires
        s.len() > 0,
    ensures
        escape_lb(s) == escape_lb(s.drop_last()) + (if s.last() == '[' {
            seq!['[', 'l', 'b', ']']
        } else {
            seq![s.last()]
        }),
    decreases s.len(),
{
    let piece = if s.last() == '[' {
        seq!['[', 'l', 'b', ']']
    } else {
        seq![s.last()]
    };
    if s.len() == 1 {
        assert(s.drop_first() =~= Seq::<char>::empty());
        assert(s.drop_last() =~= Seq::<char>::empty());
        assert(escape_lb(Seq::<char>::empty()) == Seq::<char>::empty());
        assert(escape_lb(s) =~= escape_lb(s.drop_last()) + piece);
    } else {
        lemma_escape_lb_snoc(s.drop_first());
        assert(s.drop_first().drop_last() =~= s.drop_last().drop_first());
        assert(s.drop_first().last() == s.last());
        assert(s.drop_last()[0] == s[0]);
        assert(escape_lb(s) =~= escape_lb(s.drop_last()) + piece);
    }
}

/// Escapes a log message's opening brackets and wraps it in the markup of
/// its severity: informational text in blue, warnings in orange, errors in
/// red, plain output untouched.
pub fn escape_bbcode_and_format(msg: String, msg_type: MessageType) -> (r: String)
    ensures
        r@ == color_prefix(msg_type) + escape_lb(msg@) + color_suffix(msg_type),
{
    let mut r = String::new();
    match msg_type {
        MessageType::MessageOutput => {},
        MessageType::MessageInfo => r.append("[color=blue]"),
        MessageType::MessageWarning => r.append("[color=orange]"),
        MessageType::MessageError => r.append("[color=red]"),
    }
    proof {
        assert(r@ =~= color_prefix(msg_type));
        assert(r@ + escape_lb(msg@.subrange(0, 0)) =~= r@);
    }
    let ghost prefix = r@;
    let n = msg.as_str().unicode_len();
    let mut i: usize = 0;
    while i < n
        invariant
            0 <= i <= n,
            n == msg@.len(),
            r@ == prefix + escape_lb(msg@.subrange(0, i as int)),
        decreases n - i,
    {
        let c = msg.as_str().get_char(i);
        proof {
            let done = msg@.subrange(0, i + 1);
            assert(done.drop_last() =~= msg@.subrange(0, i as int));
            assert(done.last() == msg@[i as int]);
            lemma_escape_lb_snoc(done);
        }
        if c == '[' {
            push_char(&mut r, '[');
            push_char(&mut r, 'l');
            push_char(&mut r, 'b');
            push_char(&mut r, ']');
            assert(r@ =~= prefix + escape_lb(msg@.subrange(0, i + 1)));
        } else {
            push_char(&mut r, c);
            assert(r@ =~= prefix + escape_lb(msg@.subrange(0, i + 1)));
        }
        i = i + 1;
    }
    proof {
        assert(msg@.subrange(0, n as int) =~= msg@);
    }
    match msg_type {
        MessageType::MessageOutput => {},
        _ => r.append("[/color]"),
    }
    proof {
        assert(r@ =~= color_prefix(msg_type) + escape_lb(msg@) + color_suffix(msg_type));
    }
    r
}

/// Whether a reported engine name belongs to a compatible host: it must
/// begin with the engine's own name.
pub open spec fn spec_api_name_compatible(s: Seq<char>) -> bool {
    s.len() >= 5 && s.subrange(0, 5) == "Godot"@
}

/// Decides whether the host engine's reported name is compatible.
pub fn api_name_compatible(name: &str) -> (r: bool)
    ensures
        r == spec_api_name_compatible(name@),
{
    proof {
        reveal_strlit("Godot");
        assert("Godot"@.len() == 5);
    }
    let n = name.unicode_len();
    if n < 5 {
        return false;
    }
    let mut k: usize = 0;
    while k < 5
        invariant
            0 <= k <= 5,
            n == name@.len(),
            n >= 5,
            forall|i: int| 0 <= i < k ==> name@[i] == "Godot"@[i],
        decreases 5 - k,
    {
        proof {
            reveal_strlit("Godot");
            assert("Godot"@.len() == 5);
        }
        if name.get_char(k) != "Godot".get_char(k) {
            proof {
                if name@.subrange(0, 5) =~= "Godot"@ {
                    assert(false);
                }
            }
            return false;
        }
        k = k + 1;
    }
    proof {
        assert(name@.subrange(0, 5) =~= "Godot"@);
    }
    true
}

} // verus!
