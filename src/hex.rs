use vstd::prelude::*;

verus! {

/// The lowercase hexadecimal digits, in order.
pub open spec fn hex_chars() -> Seq<char> {
    seq!['0', '1', '2', '3', '4', '5', '6', '7', '8', '9', 'a', 'b', 'c', 'd', 'e', 'f']
}

/// Two lowercase hexadecimal digits per byte, high digit first.
pub open spec fn hex_of_bytes(b: Seq<u8>) -> Seq<char> {
    Seq::new(2 * b.len(), |i: int| hex_chars()[if i % 2 == 0 { b[i / 2] / 16 } else { b[i / 2] % 16 } as int])
}

/// `n` in lowercase hexadecimal without leading zeros, padded with zeros to at least
/// `width` digits.
pub open spec fn hex_padded(n: nat, width: nat) -> Seq<char>
    decreases n + width,
{
    if n < 16 && width <= 1 {
        seq![hex_chars()[n as int]]
    } else {
        hex_padded(n / 16, if width > 0 { (width - 1) as nat } else { 0 }) + seq![hex_chars()[(n % 16) as int]]
    }
}

/// Appends the digit `d` (under 16) to `s`.
fn push_digit(s: &mut String, d: u8)
    requires
        d < 16,
    ensures
        final(s)@ == old(s)@ + seq![hex_chars()[d as int]],
{
    let digits: &str = "0123456789abcdef";
    proof {
        reveal_strlit("0123456789abcdef");
    }
    assert(digits.is_ascii());
    let one: &str = digits.substring_ascii(d as usize, d as usize + 1);
    s.append(one);
    assert(one@ =~= seq![hex_chars()[d as int]]);
}

/// Two lowercase hexadecimal digits per byte.
pub fn encode_bytes(b: &[u8]) -> (r: String)
    requires
        b@.len() <= usize::MAX / 2,
    ensures
        r@ == hex_of_bytes(b@),
{
    let mut s: String = String::new();
    let mut i: usize = 0;
    while i < b.len()
        invariant
            0 <= i <= b@.len(),
            s@ == hex_of_bytes(b@.subrange(0, i as int)),
        decreases b@.len() - i,
    {
        push_digit(&mut s, b[i] / 16);
        push_digit(&mut s, b[i] % 16);
        i = i + 1;
        assert(s@ =~= hex_of_bytes(b@.subrange(0, i as int)));
    }
    assert(b@.subrange(0, b@.len() as int) =~= b@);
    s
}

/// A word in lowercase hexadecimal, at least two digits long.
pub fn encode_word(w: u64) -> (r: String)
    ensures
        r@ == hex_padded(w as nat, 2),
{
    let mut nibbles: Vec<u8> = Vec::new();
    let mut x: u64 = w;
    let mut width: u64 = 2;
    let ghost mut tail: Seq<char> = Seq::empty();
    while !(x < 16 && width <= 1)
        invariant
            hex_padded(w as nat, 2) == hex_padded(x as nat, width as nat) + tail,
            width <= 2,
            tail == Seq::new(nibbles@.len(), |i: int| hex_chars()[nibbles@[nibbles@.len() - 1 - i] as int]),
            forall|i: int| 0 <= i < nibbles@.len() ==> #[trigger] nibbles@[i] < 16,
        decreases x + width,
    {
        let d: u8 = (x % 16) as u8;
        proof {
            let t2 = seq![hex_chars()[d as int]] + tail;
            tail = t2;
        }
        nibbles.push(d);
        x = x / 16;
        width = if width > 0 { width - 1 } else { 0 };
        assert(tail =~= Seq::new(nibbles@.len(), |i: int| hex_chars()[nibbles@[nibbles@.len() - 1 - i] as int]));
    }
    let mut s: String = String::new();
    push_digit(&mut s, x as u8);
    let mut k: usize = nibbles.len();
    while k > 0
        invariant
            k <= nibbles@.len(),
            forall|i: int| 0 <= i < nibbles@.len() ==> #[trigger] nibbles@[i] < 16,
            s@ + Seq::new(k as nat, |i: int| hex_chars()[nibbles@[k - 1 - i] as int]) == hex_padded(w as nat, 2),
        decreases k,
    {
        k = k - 1;
        let ghost before = s@;
        push_digit(&mut s, nibbles[k]);
        assert(before + Seq::new((k + 1) as nat, |i: int| hex_chars()[nibbles@[k - i] as int])
            =~= s@ + Seq::new(k as nat, |i: int| hex_chars()[nibbles@[k - 1 - i] as int]));
    }
    assert(s@ + Seq::new(0, |i: int| hex_chars()[nibbles@[- 1 - i] as int]) =~= s@);
    s
}

} // verus!
