use vstd::prelude::*;
use vstd::string::{StrSliceExecFns, StringExecFns};

use crate::points::Rectangle;

verus! {

/// A selection written out by a format string: `%x`, `%y`, `%w` and `%h`
/// (in either case) stand for the rectangle's position and size, `%o` for
/// the output's name, `%n` for a line break and `%%` for a percent sign.
pub struct RectFmt<'a> {
    pub rect: Rectangle,
    pub fmt: &'a str,
    pub output_name: Option<&'a str>,
}

pub open spec fn digit_char(d: nat) -> char {
    if d == 0 {
        '0'
    } else if d == 1 {
        '1'
    } else if d == 2 {
        '2'
    } else if d == 3 {
        '3'
    } else if d == 4 {
        '4'
    } else if d == 5 {
        '5'
    } else if d == 6 {
        '6'
    } else if d == 7 {
        '7'
    } else if d == 8 {
        '8'
    } else {
        '9'
    }
}

/// The decimal digits of `n`.
pub open spec fn decimal(n: nat) -> Seq<char>
    decreases n,
{
    if n < 10 {
        seq![digit_char(n)]
    } else {
        decimal(n / 10).push(digit_char(n % 10))
    }
}

/// What the directive `%c` stands for.
pub open spec fn expansion(c: char, rect: Rectangle, name: Option<Seq<char>>) -> Seq<char> {
    if c == 'x' || c == 'X' {
        decimal(rect.start.x as nat)
    } else if c == 'y' || c == 'Y' {
        decimal(rect.start.y as nat)
    } else if c == 'w' || c == 'W' {
        decimal(rect.width as nat)
    } else if c == 'h' || c == 'H' {
        decimal(rect.height as nat)
    } else if c == 'o' {
        match name {
            Some(n) => n,
            None => seq!['<', 'u', 'n', 'k', 'n', 'o', 'w', 'n', '>'],
        }
    } else if c == 'n' {
        seq!['\n']
    } else if c == '%' {
        seq!['%']
    } else {
        seq!['%', c]
    }
}

/// `fmt` with every directive replaced; a `%` at the very end stays.
pub open spec fn rendered(fmt: Seq<char>, rect: Rectangle, name: Option<Seq<char>>) -> Seq<char>
    decreases fmt.len(),
{
    if fmt.len() == 0 {
        seq![]
    } else if fmt[0] != '%' {
        seq![fmt[0]] + rendered(fmt.subrange(1, fmt.len() as int), rect, name)
    } else if fmt.len() == 1 {
        seq!['%']
    } else {
        expansion(fmt[1], rect, name) + rendered(fmt.subrange(2, fmt.len() as int), rect, name)
    }
}

/// Relies on String::push: the character is appended.
#[verifier::external_body]
fn push_char(s: &mut String, c: char)
    ensures
        final(s)@ == old(s)@.push(c),
{
    s.push(c);
}

fn digit(d: u32) -> (c: char)
    requires
        d < 10,
    ensures
        c == digit_char(d as nat),
{
    match d {
        0 => '0',
        1 => '1',
        2 => '2',
        3 => '3',
        4 => '4',
        5 => '5',
        6 => '6',
        7 => '7',
        8 => '8',
        _ => '9',
    }
}

fn push_decimal(out: &mut String, n: u32)
    ensures
        final(out)@ == old(out)@ + decimal(n as nat),
    decreases n,
{
    if n >= 10 {
        push_decimal(out, n / 10);
    }
    push_char(out, digit(n % 10));
    assert(out@ =~= old(out)@ + decimal(n as nat));
}

impl<'a> RectFmt<'a> {
    pub open spec fn spec_name(&self) -> Option<Seq<char>> {
        match self.output_name {
            Some(n) => Some(n@),
            None => None,
        }
    }

    fn push_expansion(&self, out: &mut String, c: char)
        ensures
            final(out)@ == old(out)@ + expansion(c, self.rect, self.spec_name()),
    {
        if c == 'x' || c == 'X' {
            push_decimal(out, self.rect.start.x);
        } else if c == 'y' || c == 'Y' {
            push_decimal(out, self.rect.start.y);
        } else if c == 'w' || c == 'W' {
            push_decimal(out, self.rect.width);
        } else if c == 'h' || c == 'H' {
            push_decimal(out, self.rect.height);
        } else if c == 'o' {
            match self.output_name {
                Some(name) => out.append(name),
                None => {
                    proof {
                        reveal_strlit("<unknown>");
                    }
                    out.append("<unknown>");
                    assert("<unknown>"@ =~= seq!['<', 'u', 'n', 'k', 'n', 'o', 'w', 'n', '>']);
                },
            }
        } else if c == 'n' {
            push_char(out, '\n');
        } else if c == '%' {
            push_char(out, '%');
        } else {
            push_char(out, '%');
            push_char(out, c);
        }
    }

    /// The format string with every directive replaced.
    pub fn render(&self) -> (r: String)
        ensures
            r@ == rendered(self.fmt@, self.rect, self.spec_name()),
    {
        let ghost f = self.fmt@;
        let n = self.fmt.unicode_len();
        let mut out = String::new();
        let mut i: usize = 0;
        assert(f.subrange(0, n as int) =~= f);
        assert(out@ + rendered(f, self.rect, self.spec_name()) =~= rendered(f, self.rect, self.spec_name()));
        while i < n
            invariant
                n == f.len(),
                f == self.fmt@,
                i <= n,
                out@ + rendered(f.subrange(i as int, n as int), self.rect, self.spec_name()) == rendered(
                    f,
                    self.rect,
                    self.spec_name(),
                ),
            decreases n - i,
        {
            let ghost rest = f.subrange(i as int, n as int);
            let c = self.fmt.get_char(i);
            if c != '%' {
                assert(rest.subrange(1, rest.len() as int) =~= f.subrange(i + 1, n as int));
                push_char(&mut out, c);
                i = i + 1;
            } else if i + 1 == n {
                push_char(&mut out, '%');
                i = i + 1;
                assert(f.subrange(i as int, n as int) =~= seq![]);
            } else {
                let d = self.fmt.get_char(i + 1);
                assert(rest.subrange(2, rest.len() as int) =~= f.subrange(i + 2, n as int));
                self.push_expansion(&mut out, d);
                i = i + 2;
            }
        }
        assert(f.subrange(n as int, n as int) =~= seq![]);
        out
    }
}

} // verus!
