use vstd::prelude::*;

verus! {

/// The decimal digits of `n`, most significant first, as ASCII bytes.
pub open spec fn decimal(n: nat) -> Seq<u8>
    decreases n,
{
    if n < 10 {
        seq![(48 + n) as u8]
    } else {
        decimal(n / 10).push((48 + n % 10) as u8)
    }
}

/// `%define ` followed by a name, a space, `value` in decimal and a newline.
pub open spec fn define_line(name: Seq<u8>, value: nat) -> Seq<u8> {
    define_keyword() + name + seq![' ' as u8] + decimal(value) + seq!['\n' as u8]
}

/// The bytes `%define `.
pub open spec fn define_keyword() -> Seq<u8> {
    seq!['%' as u8, 'd' as u8, 'e' as u8, 'f' as u8, 'i' as u8, 'n' as u8, 'e' as u8, ' ' as u8]
}

/// The bytes `KERNEL_ENTRY_OFFSET`.
pub open spec fn entry_offset_name() -> Seq<u8> {
    seq![
        'K' as u8, 'E' as u8, 'R' as u8, 'N' as u8, 'E' as u8, 'L' as u8, '_' as u8, 'E' as u8, 'N' as u8, 'T' as u8, 'R' as u8, 'Y' as u8, '_' as u8, 'O' as u8, 'F' as u8,
        'F' as u8, 'S' as u8, 'E' as u8, 'T' as u8,
    ]
}

/// The bytes `KERNEL_MEMSIZE`.
pub open spec fn memsize_name() -> Seq<u8> {
    seq!['K' as u8, 'E' as u8, 'R' as u8, 'N' as u8, 'E' as u8, 'L' as u8, '_' as u8, 'M' as u8, 'E' as u8, 'M' as u8, 'S' as u8, 'I' as u8, 'Z' as u8, 'E' as u8]
}

/// The metadata text: the entry offset line, then the total size line.
pub open spec fn metadata_bytes(entry_offset: nat, total_size: nat) -> Seq<u8> {
    define_line(entry_offset_name(), entry_offset) + define_line(memsize_name(), total_size)
}

/// Appends the decimal digits of `n` to `out`.
pub fn push_decimal(out: &mut Vec<u8>, n: u64)
    ensures
        final(out)@ == old(out)@ + decimal(n as nat),
    decreases n,
{
    if n >= 10 {
        push_decimal(out, n / 10);
    }
    let digit: u8 = (n % 10) as u8;
    out.push(48u8 + digit);
    proof {
        if n < 10 {
            assert(decimal(n as nat) =~= seq![(48 + n) as u8]);
        }
    }
}

/// Appends `bytes` to `out`.
fn push_bytes(out: &mut Vec<u8>, bytes: &[u8])
    ensures
        final(out)@ == old(out)@ + bytes@,
{
    let ghost start = out@;
    let mut i: usize = 0;
    while i < bytes.len()
        invariant
            0 <= i <= bytes@.len(),
            out@ == start + bytes@.take(i as int),
        decreases bytes@.len() - i,
    {
        out.push(bytes[i]);
        i += 1;
        proof {
            assert(bytes@.take(i as int) =~= bytes@.take(i - 1).push(bytes@[i - 1]));
        }
    }
    assert(bytes@.take(i as int) =~= bytes@);
}

/// Appends one `%define NAME value` line to `out`.
fn push_define(out: &mut Vec<u8>, name: &[u8], value: u64)
    ensures
        final(out)@ == old(out)@ + define_line(name@, value as nat),
{
    let ghost start = out@;
    let keyword: Vec<u8> = vec!['%' as u8, 'd' as u8, 'e' as u8, 'f' as u8, 'i' as u8, 'n' as u8, 'e' as u8, ' ' as u8];
    assert(keyword@ =~= define_keyword());
    push_bytes(out, keyword.as_slice());
    push_bytes(out, name);
    out.push(' ' as u8);
    push_decimal(out, value);
    out.push('\n' as u8);
    assert(out@ =~= start + define_line(name@, value as nat));
}

/// The metadata file's text: `%define KERNEL_ENTRY_OFFSET <entry_offset>`
/// and `%define KERNEL_MEMSIZE <total_size>`, one per line, in decimal.
pub fn metadata_text(entry_offset: u64, total_size: u64) -> (r: Vec<u8>)
    ensures
        r@ == metadata_bytes(entry_offset as nat, total_size as nat),
{
    let mut out: Vec<u8> = Vec::new();
    let entry_name: Vec<u8> = vec![
        'K' as u8, 'E' as u8, 'R' as u8, 'N' as u8, 'E' as u8, 'L' as u8, '_' as u8, 'E' as u8, 'N' as u8, 'T' as u8, 'R' as u8, 'Y' as u8, '_' as u8, 'O' as u8, 'F' as u8,
        'F' as u8, 'S' as u8, 'E' as u8, 'T' as u8,
    ];
    assert(entry_name@ =~= entry_offset_name());
    let size_name: Vec<u8> = vec!['K' as u8, 'E' as u8, 'R' as u8, 'N' as u8, 'E' as u8, 'L' as u8, '_' as u8, 'M' as u8, 'E' as u8, 'M' as u8, 'S' as u8, 'I' as u8, 'Z' as u8, 'E' as u8];
    assert(size_name@ =~= memsize_name());
    push_define(&mut out, entry_name.as_slice(), entry_offset);
    push_define(&mut out, size_name.as_slice(), total_size);
    assert(out@ =~= metadata_bytes(entry_offset as nat, total_size as nat));
    out
}

} // verus!
