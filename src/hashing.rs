use blake2::Digest;
use vstd::prelude::*;

verus! {

/// The 64 bytes of the BLAKE2b-512 digest of `data`.
pub uninterp spec fn blake2b512_of(data: Seq<u8>) -> Seq<u8>;

/// Relies on blake2's `Blake2b512` through `Digest::digest`: a digest of 64
/// bytes that depends on the input bytes alone.
#[verifier::external_body]
fn blake2b512(data: &Vec<u8>) -> (r: Vec<u8>)
    ensures
        r@ == blake2b512_of(data@),
        r@.len() == 64,
{
    blake2::Blake2b512::digest(data).to_vec()
}

/// The lowercase hex digit of a value below sixteen.
pub open spec fn hex_digit(d: u8) -> char {
    if d == 0 {
        '0'
    }
    else if d == 1 {
        '1'
    }
    else if d == 2 {
        '2'
    }
    else if d == 3 {
        '3'
    }
    else if d == 4 {
        '4'
    }
    else if d == 5 {
        '5'
    }
    else if d == 6 {
        '6'
    }
    else if d == 7 {
        '7'
    }
    else if d == 8 {
        '8'
    }
    else if d == 9 {
        '9'
    }
    else if d == 10 {
        'a'
    }
    else if d == 11 {
        'b'
    }
    else if d == 12 {
        'c'
    }
    else if d == 13 {
        'd'
    }
    else if d == 14 {
        'e'
    }
    else {
        'f'
    }
}

/// A byte in lowercase hex: always two digits, the high one first.
pub open spec fn byte_hex(b: u8) -> Seq<char> {
    seq![hex_digit(b / 16), hex_digit(b % 16)]
}

/// The bytes written one after another by `byte_hex`.
pub open spec fn hex_of(s: Seq<u8>) -> Seq<char>
    decreases s.len(),
{
    if s.len() == 0 {
        Seq::empty()
    } else {
        hex_of(s.drop_last()) + byte_hex(s.last())
    }
}

/// The hash recorded in a manifest for a file with contents `data`.
pub open spec fn content_hash_of(data: Seq<u8>) -> Seq<char> {
    hex_of(blake2b512_of(data))
}

fn hex_digit_str(d: u8) -> (r: &'static str)
    requires
        d < 16,
    ensures
        r@ == seq![hex_digit(d)],
{
    if d == 0 {
        proof {
            reveal_strlit("0");
        }
        "0"
    } else if d == 1 {
        proof {
            reveal_strlit("1");
        }
        "1"
    } else if d == 2 {
        proof {
            reveal_strlit("2");
        }
        "2"
    } else if d == 3 {
        proof {
            reveal_strlit("3");
        }
        "3"
    } else if d == 4 {
        proof {
            reveal_strlit("4");
        }
        "4"
    } else if d == 5 {
        proof {
            reveal_strlit("5");
        }
        "5"
    } else if d == 6 {
        proof {
            reveal_strlit("6");
        }
        "6"
    } else if d == 7 {
        proof {
            reveal_strlit("7");
        }
        "7"
    } else if d == 8 {
        proof {
            reveal_strlit("8");
        }
        "8"
    } else if d == 9 {
        proof {
            reveal_strlit("9");
        }
        "9"
    } else if d == 10 {
        proof {
            reveal_strlit("a");
        }
        "a"
    } else if d == 11 {
        proof {
            reveal_strlit("b");
        }
        "b"
    } else if d == 12 {
        proof {
            reveal_strlit("c");
        }
        "c"
    } else if d == 13 {
        proof {
            reveal_strlit("d");
        }
        "d"
    } else if d == 14 {
        proof {
            reveal_strlit("e");
        }
        "e"
    } else {
        proof {
            reveal_strlit("f");
        }
        "f"
    }
}

/// Writes `bytes` in lowercase hex, each byte as `byte_hex` has it.
pub fn hex_lower(bytes: &Vec<u8>) -> (r: String)
    ensures
        r@ == hex_of(bytes@),
{
    let mut r = String::new();
    let mut i: usize = 0;
    while i < bytes.len()
        invariant
            i <= bytes@.len(),
            r@ == hex_of(bytes@.take(i as int)),
        decreases bytes@.len() - i,
    {
        let b = bytes[i];
        r.append(hex_digit_str(b / 16));
        r.append(hex_digit_str(b % 16));
        proof {
            assert(bytes@.take(i + 1).drop_last() == bytes@.take(i as int));
        }
        i = i + 1;
    }
    proof {
        assert(bytes@.take(bytes@.len() as int) == bytes@);
    }
    r
}

/// The content hash of `data`: its BLAKE2b-512 digest in lowercase hex, 128
/// digits long.
pub fn content_hash(data: &Vec<u8>) -> (r: String)
    ensures
        r@ == content_hash_of(data@),
        r@.len() == 128,
{
    let digest = blake2b512(data);
    proof {
        lemma_hex_len(digest@);
    }
    hex_lower(&digest)
}

/// Hex takes two digits for each byte.
pub proof fn lemma_hex_len(s: Seq<u8>)
    ensures
        hex_of(s).len() == 2 * s.len(),
    decreases s.len(),
{
    if s.len() > 0 {
        lemma_hex_len(s.drop_last());
    }
}

proof fn lemma_hex_digit_injective(a: u8, b: u8)
    requires
        a < 16,
        b < 16,
        hex_digit(a) == hex_digit(b),
    ensures
        a == b,
{
}

/// Distinct byte sequences give distinct hex.
pub proof fn lemma_hex_injective(a: Seq<u8>, b: Seq<u8>)
    requires
        hex_of(a) == hex_of(b),
    ensures
        a == b,
    decreases a.len(),
{
    lemma_hex_len(a);
    lemma_hex_len(b);
    if a.len() > 0 {
        let n = hex_of(a).len();
        let ha = hex_of(a.drop_last());
        let hb = hex_of(b.drop_last());
        lemma_hex_len(a.drop_last());
        lemma_hex_len(b.drop_last());
        assert(hex_of(a) == ha + byte_hex(a.last()));
        assert(hex_of(b) == hb + byte_hex(b.last()));
        assert(ha =~= hex_of(a).subrange(0, n - 2));
        assert(hb =~= hex_of(b).subrange(0, n - 2));
        lemma_hex_injective(a.drop_last(), b.drop_last());
        assert(hex_of(a)[n - 2] == hex_digit(a.last() / 16));
        assert(hex_of(b)[n - 2] == hex_digit(b.last() / 16));
        assert(hex_of(a)[n - 1] == hex_digit(a.last() % 16));
        assert(hex_of(b)[n - 1] == hex_digit(b.last() % 16));
        lemma_hex_digit_injective(a.last() / 16, b.last() / 16);
        lemma_hex_digit_injective(a.last() % 16, b.last() % 16);
        assert(a.last() == b.last()) by (nonlinear_arith)
            requires
                a.last() / 16 == b.last() / 16,
                a.last() % 16 == b.last() % 16,
        ;
        assert(a =~= a.drop_last().push(a.last()));
        assert(b =~= b.drop_last().push(b.last()));
    }
}

/// Contents whose digests differ are recorded under different hashes.
pub proof fn lemma_content_hash_distinguishes(a: Seq<u8>, b: Seq<u8>)
    requires
        blake2b512_of(a) != blake2b512_of(b),
    ensures
        content_hash_of(a) != content_hash_of(b),
{
    if content_hash_of(a) == content_hash_of(b) {
        lemma_hex_injective(blake2b512_of(a), blake2b512_of(b));
    }
}

} // verus!
