//! Text that the command-line front end prints for the debug handler's
//! answers.
use vstd::prelude::*;

verus! {

/// The lower-case hexadecimal digit of `d` (below 16).
pub open spec fn hex_digit(d: nat) -> char {
    if d < 10 {
        ((d + 48) as u32) as char
    } else {
        ((d + 87) as u32) as char
    }
}

/// The last `n` hexadecimal digits of `a`, zero-padded, most significant
/// first.
pub open spec fn hex_fixed(a: nat, n: nat) -> Seq<char>
    decreases n,
{
    if n == 0 {
        Seq::empty()
    } else {
        hex_fixed(a / 16, (n - 1) as nat).push(hex_digit(a % 16))
    }
}

fn hex_digit_exec(d: u32) -> (c: char)
    requires
        d < 16,
    ensures
        c == hex_digit(d as nat),
{
    let chars: [char; 16] = [
        '0', '1', '2', '3', '4', '5', '6', '7', '8', '9', 'a', 'b', 'c', 'd', 'e', 'f',
    ];
    let c = chars[d as usize];
    assert(c == hex_digit(d as nat)) by {
        assert(chars@ =~= seq![
            '0', '1', '2', '3', '4', '5', '6', '7', '8', '9', 'a', 'b', 'c', 'd', 'e', 'f',
        ]);
        assert('0' == (48u32 as char) && '9' == (57u32 as char) && 'a' == (97u32 as char) && 'f' == (
        102u32 as char));
    }
    c
}

/// Appends the last `n` hexadecimal digits of `a` to `out`.
fn push_hex_fixed(out: &mut Vec<char>, a: u32, n: usize)
    requires
        n <= 8,
    ensures
        final(out)@ == old(out)@ + hex_fixed(a as nat, n as nat),
    decreases n,
{
    if n > 0 {
        push_hex_fixed(out, a / 16, n - 1);
        out.push(hex_digit_exec(a % 16));
        assert(hex_fixed(a as nat, n as nat) == hex_fixed((a / 16) as nat, (n - 1) as nat).push(
            hex_digit((a % 16) as nat),
        ));
    } else {
        assert(old(out)@ + hex_fixed(a as nat, 0) =~= old(out)@);
    }
}

/// `n` spaces.
pub open spec fn spaces(n: nat) -> Seq<char> {
    Seq::new(n, |i: int| ' ')
}

/// The bytes of a memory read, each as a space and two hexadecimal digits,
/// four to a line; `count` bytes are on the current line already, and each
/// new line starts with a tab and the width of the address in spaces.
pub open spec fn byte_lines(vals: Seq<u8>, count: int) -> Seq<char>
    decreases vals.len(),
{
    if vals.len() == 0 {
        Seq::empty()
    } else if count == 4 {
        seq!['\n', '\t'] + spaces(11) + seq![' '] + hex_fixed(vals[0] as nat, 2) + byte_lines(
            vals.drop_first(),
            1,
        )
    } else {
        seq![' '] + hex_fixed(vals[0] as nat, 2) + byte_lines(vals.drop_first(), count + 1)
    }
}

/// The text printed for a memory read: a tab, the address as `0x` and eight
/// hexadecimal digits and a colon, then the bytes.
pub open spec fn read_text(address: u32, value: Seq<u8>) -> Seq<char> {
    seq!['\t', '0', 'x'] + hex_fixed(address as nat, 8) + seq![':'] + byte_lines(value, 0)
}

/// The text printed for the bytes `value` read from `address`.
pub fn read_response_text(address: u32, value: &Vec<u8>) -> (s: String)
    ensures
        s@ == read_text(address, value@),
{
    let mut out: Vec<char> = Vec::new();
    out.push('\t');
    out.push('0');
    out.push('x');
    push_hex_fixed(&mut out, address, 8);
    out.push(':');
    let ghost head = out@;
    assert(head =~= seq!['\t', '0', 'x'] + hex_fixed(address as nat, 8) + seq![':']);
    let mut count: usize = 0;
    let mut i: usize = 0;
    assert(value@.skip(0) =~= value@);
    while i < value.len()
        invariant
            i <= value.len(),
            count <= 4,
            i == 0 ==> count == 0,
            out@ + byte_lines(value@.skip(i as int), count as int) == head + byte_lines(value@, 0),
        decreases value.len() - i,
    {
        let ghost before = out@;
        let ghost rest = value@.skip(i as int);
        assert(rest.drop_first() =~= value@.skip(i + 1));
        assert(rest[0] == value@[i as int]);
        if count == 4 {
            out.push('\n');
            out.push('\t');
            let mut k: usize = 0;
            while k < 11
                invariant
                    k <= 11,
                    out@ == before + seq!['\n', '\t'] + spaces(k as nat),
                decreases 11 - k,
            {
                out.push(' ');
                k += 1;
                assert(spaces(k as nat) =~= spaces((k - 1) as nat).push(' '));
            }
            out.push(' ');
            push_hex_fixed(&mut out, value[i] as u32, 2);
            assert(out@ =~= before + (seq!['\n', '\t'] + spaces(11) + seq![' '] + hex_fixed(
                value@[i as int] as nat,
                2,
            )));
            count = 1;
        } else {
            out.push(' ');
            push_hex_fixed(&mut out, value[i] as u32, 2);
            assert(out@ =~= before + (seq![' '] + hex_fixed(value@[i as int] as nat, 2)));
            count = count + 1;
        }
        i += 1;
    }
    assert(value@.skip(i as int) =~= Seq::<u8>::empty());
    assert(out@ + byte_lines(Seq::<u8>::empty(), count as int) =~= out@);
    let mut s = String::new();
    crate::text::append_chars(&mut s, &out);
    s
}


/// The line of one instruction in a code listing: `> ` in front of the
/// instruction at the program counter, two spaces in front of the others.
pub open spec fn code_line(pc: u32, insn: (u32, String)) -> Seq<char> {
    (if insn.0 == pc {
        "> "@
    } else {
        "  "@
    }) + insn.1@ + seq!['\n']
}

/// The text printed for the code at the program counter: a heading, then a
/// line for each instruction.
pub open spec fn code_listing_text(pc: u32, insns: Seq<(u32, String)>) -> Seq<char>
    decreases insns.len(),
{
    if insns.len() == 0 {
        "Assembly Code\n"@
    } else {
        code_listing_text(pc, insns.drop_last()) + code_line(pc, insns.last())
    }
}

/// The text printed for the instructions `instructions` read at `pc`.
pub fn code_listing(pc: u32, instructions: &Vec<(u32, String)>) -> (s: String)
    ensures
        s@ == code_listing_text(pc, instructions@),
{
    let mut s = "Assembly Code\n".to_owned();
    let mut i: usize = 0;
    while i < instructions.len()
        invariant
            i <= instructions.len(),
            s@ == code_listing_text(pc, instructions@.take(i as int)),
        decreases instructions.len() - i,
    {
        proof {
            reveal_strlit("> ");
            reveal_strlit("  ");
        }
        let ghost before = s@;
        let (address, text) = &instructions[i];
        if *address == pc {
            crate::text::append_chars(&mut s, &crate::text::str_chars("> "));
        } else {
            crate::text::append_chars(&mut s, &crate::text::str_chars("  "));
        }
        crate::text::append_chars(&mut s, &crate::text::str_chars(text.as_str()));
        let mut newline: Vec<char> = Vec::new();
        newline.push('\n');
        crate::text::append_chars(&mut s, &newline);
        assert(instructions@.take(i + 1).drop_last() =~= instructions@.take(i as int));
        assert(instructions@.take(i + 1).last() == instructions@[i as int]);
        assert(s@ =~= before + code_line(pc, instructions@[i as int]));
        i += 1;
    }
    assert(instructions@.take(instructions.len() as int) =~= instructions@);
    s
}

} // verus!
