//! A small sample API, the kind of library whose documentation the tool
//! renders: a person record, a greeting, a colour enum and a trait.

use vstd::prelude::*;

verus! {

/// A simple structure to hold a name and age.
pub struct Person {
    /// The person's name.
    pub name: String,
    /// The person's age in years.
    pub age: u32,
}

impl Person {
    /// Creates a new person.
    pub fn new(name: String, age: u32) -> (r: Person)
        ensures
            r.name == name,
            r.age == age,
    {
        Person { name, age }
    }

    /// The person's name.
    pub fn name(&self) -> (r: &str)
        ensures
            r@ == self.name@,
    {
        self.name.as_str()
    }

    /// The person's age.
    pub fn age(&self) -> (r: u32)
        ensures
            r == self.age,
    {
        self.age
    }
}

/// Greets a person by name: `Hello, <name>!`.
pub fn greet(name: &str) -> (r: String)
    ensures
        r@ == "Hello, "@ + name@ + "!"@,
{
    let mut r = String::from_str("Hello, ");
    r.append(name);
    r.append("!");
    r
}

/// An enumeration of different colours.
#[derive(Debug, Clone, Copy, PartialEq, Eq, Structural)]
pub enum Color {
    /// Red colour.
    Red,
    /// Green colour.
    Green,
    /// Blue colour.
    Blue,
    /// A custom RGB colour.
    Rgb(u8, u8, u8),
}

/// A trait for things that can be coloured.
pub trait Colorable {
    /// Sets the colour of the object.
    fn set_color(&mut self, color: Color);

    /// Gets the current colour of the object.
    fn get_color(&self) -> &Color;
}

} // verus!

verus! {

/// The decimal notation of an integer, with a leading `-` when negative.
pub open spec fn int_text(n: int) -> Seq<char> {
    if n < 0 {
        "-"@ + crate::text::decimal((-n) as nat)
    } else {
        crate::text::decimal(n as nat)
    }
}

/// Appends the decimal notation of `n`.
pub fn push_i32(out: &mut String, n: i32)
    ensures
        final(out)@ == old(out)@ + int_text(n as int),
{
    let ghost start = out@;
    if n < 0 {
        out.append("-");
        let m: i64 = -(n as i64);
        crate::text::push_decimal(out, m as u64);
    } else {
        crate::text::push_decimal(out, n as u64);
    }
    assert(out@ =~= start + int_text(n as int));
}

/// An error with a message and a numeric code.
#[derive(Debug)]
pub struct CustomError {
    pub message: String,
    pub code: i32,
}

impl CustomError {
    /// `Custom error [<code>]: <message>`.
    pub fn to_string(&self) -> (r: String)
        ensures
            r@ == "Custom error ["@ + int_text(self.code as int) + "]: "@ + self.message@,
    {
        let mut r = String::from_str("Custom error [");
        push_i32(&mut r, self.code);
        r.append("]: ");
        r.append(self.message.as_str());
        assert(r@ =~= "Custom error ["@ + int_text(self.code as int) + "]: "@ + self.message@);
        r
    }
}

/// An error that wraps the errors of a small processing chain.
#[derive(Debug)]
pub enum ChainedError {
    /// The input was not a number.
    Parse,
    /// A rule of the chain was broken.
    Custom(CustomError),
    /// A remote call answered with an error status.
    Network { url: String, status: u16 },
}

/// Whether `c` is an ASCII digit.
pub open spec fn is_digit(c: char) -> bool {
    '0' <= c <= '9'
}

/// The value of a string of ASCII digits.
pub open spec fn digits_value(s: Seq<char>) -> int
    decreases s.len(),
{
    if s.len() == 0 {
        0
    } else {
        10 * digits_value(s.drop_last()) + (s.last() as int - '0' as int)
    }
}

/// Whether every character of `s` is an ASCII digit.
pub open spec fn all_digits(s: Seq<char>) -> bool {
    forall|i: int| 0 <= i < s.len() ==> is_digit(#[trigger] s[i])
}

/// The `i32` that a text denotes: an optional sign, then one or more ASCII
/// digits, the value being in range.
pub open spec fn parse_i32_spec(s: Seq<char>) -> Option<int> {
    let neg = s.len() > 0 && s[0] == '-';
    let body = if s.len() > 0 && (s[0] == '-' || s[0] == '+') {
        s.skip(1)
    } else {
        s
    };
    if body.len() == 0 || !all_digits(body) {
        None
    } else {
        let v = if neg {
            -digits_value(body)
        } else {
            digits_value(body)
        };
        if i32::MIN <= v <= i32::MAX {
            Some(v)
        } else {
            None
        }
    }
}

proof fn lemma_digits_value_nonneg(s: Seq<char>)
    requires
        forall|i: int| 0 <= i < s.len() ==> is_digit(#[trigger] s[i]),
    ensures
        digits_value(s) >= 0,
        s.len() > 0 ==> digits_value(s) >= digits_value(s.drop_last()),
    decreases s.len(),
{
    if s.len() > 0 {
        assert forall|i: int| 0 <= i < s.drop_last().len() implies is_digit(#[trigger] s.drop_last()[i]) by {
            assert(s.drop_last()[i] == s[i]);
        }
        lemma_digits_value_nonneg(s.drop_last());
        assert(is_digit(s[s.len() - 1]));
    }
}

proof fn lemma_digits_value_grows(s: Seq<char>, k: int)
    requires
        0 <= k <= s.len(),
        forall|i: int| 0 <= i < s.len() ==> is_digit(#[trigger] s[i]),
    ensures
        digits_value(s.take(k)) <= digits_value(s),
    decreases s.len() - k,
{
    if k < s.len() {
        lemma_digits_value_grows(s, k + 1);
        let t = s.take(k + 1);
        assert(t.drop_last() == s.take(k));
        assert forall|i: int| 0 <= i < t.len() implies is_digit(#[trigger] t[i]) by {
            assert(t[i] == s[i]);
        }
        lemma_digits_value_nonneg(t);
    } else {
        assert(s.take(k) == s);
    }
}

/// Parses an `i32` written in decimal with an optional sign.
pub fn parse_i32(text: &str) -> (r: Option<i32>)
    ensures
        match r {
            Some(v) => parse_i32_spec(text@) == Some(v as int),
            None => parse_i32_spec(text@) is None,
        },
{
    let cs = crate::text::chars_of(text);
    if cs.len() == 0 {
        return None;
    }
    let neg = cs[0] == '-';
    let start: usize = if cs[0] == '-' || cs[0] == '+' { 1 } else { 0 };
    let ghost body = if cs@.len() > 0 && (cs@[0] == '-' || cs@[0] == '+') {
        cs@.skip(1)
    } else {
        cs@
    };
    assert(body == cs@.skip(start as int));
    if start == cs.len() {
        assert(cs@ == text@);
        assert(body.len() == 0);
        let ghost sb = if text@.len() > 0 && (text@[0] == '-' || text@[0] == '+') {
            text@.skip(1)
        } else {
            text@
        };
        assert(sb == body);
        assert(parse_i32_spec(text@) is None);
        return None;
    }
    let mut v: i64 = 0;
    let mut i: usize = start;
    while i < cs.len()
        invariant
            start <= i <= cs@.len(),
            cs@ == text@,
            neg == (cs@.len() > 0 && cs@[0] == '-'),
            body == (if cs@.len() > 0 && (cs@[0] == '-' || cs@[0] == '+') {
                cs@.skip(1)
            } else {
                cs@
            }),
            body == cs@.skip(start as int),
            forall|k: int| 0 <= k < i - start ==> is_digit(#[trigger] body[k]),
            v == digits_value(body.take(i - start)),
            0 <= v <= 2147483648,
        decreases cs@.len() - i,
    {
        let c = cs[i];
        if !('0' <= c && c <= '9') {
            assert(!is_digit(body[i - start]));
            assert(body.len() == cs@.len() - start);
            let ghost sb = if text@.len() > 0 && (text@[0] == '-' || text@[0] == '+') {
                text@.skip(1)
            } else {
                text@
            };
            assert(sb == body);
            assert(!is_digit(sb[i - start]));
            assert(!all_digits(sb));
            assert(parse_i32_spec(text@) is None);
            return None;
        }
        let d = (c as u32 - '0' as u32) as i64;
        assert(body.take(i + 1 - start).drop_last() == body.take(i - start));
        assert(body[i - start] == c);
        let nv = v * 10 + d;
        assert(nv == digits_value(body.take(i + 1 - start)));
        if nv > 2147483648 {
            proof {
                assert forall|k: int| 0 <= k < i + 1 - start implies is_digit(#[trigger] body.take(i + 1 - start)[k]) by {
                    assert(body.take(i + 1 - start)[k] == body[k]);
                }
                if all_digits(body) {
                    lemma_digits_value_grows(body, i + 1 - start);
                }
            }
            return None;
        }
        v = nv;
        i = i + 1;
    }
    assert(body.take(i - start) == body);
    let r: i64 = if neg { -v } else { v };
    if r < -2147483648 || r > 2147483647 {
        return None;
    }
    Some(r as i32)
}

/// Parses `input` as a number, refuses numbers above 100, and describes
/// the number; input that is not a number gets a default description.
pub fn result_chaining_example(input: &str) -> (r: Result<String, ChainedError>)
    ensures
        match parse_i32_spec(input@) {
            None => r matches Ok(s) && s@ == "Default value"@,
            Some(n) => if n > 100 {
                r matches Err(ChainedError::Custom(e)) && e.code == 413 && e.message@ == "Number too large"@
            } else {
                r matches Ok(s) && s@ == "Processed: "@ + int_text(n)
            },
        },
{
    match parse_i32(input) {
        None => Ok(String::from_str("Default value")),
        Some(n) => {
            if n > 100 {
                Err(ChainedError::Custom(CustomError { message: String::from_str("Number too large"), code: 413 }))
            } else {
                let mut s = String::from_str("Processed: ");
                push_i32(&mut s, n);
                Ok(s)
            }
        },
    }
}

/// Twice `x`.
pub fn always_inline_me(x: i32) -> (r: i32)
    requires
        i32::MIN / 2 <= x <= i32::MAX / 2,
    ensures
        r == 2 * x,
{
    x * 2
}

} // verus!
