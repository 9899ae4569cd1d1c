//! The processor brand string reported by CPUID.

use vstd::prelude::*;
use vstd::utf8::{valid_utf8, decode_utf8};
use crate::text::{utf8_text, trim, trim_spec};

verus! {

/// The 48 bytes of the brand string: the registers EAX, EBX, ECX, EDX of CPUID
/// leaves 0x80000002 to 0x80000004, in that order, each little-endian.
pub open spec fn brand_bytes(registers: Seq<u32>) -> Seq<u8> {
    Seq::new(48, |n: int| ((registers[n / 4] >> ((8 * (n % 4)) as u32)) & 0xff) as u8)
}

/// The processor name shown to the user: the brand string if it is well-formed
/// UTF-8, else "Unknown CPU", without surrounding white space.
pub open spec fn cpu_name(registers: Seq<u32>) -> Seq<char> {
    let b = brand_bytes(registers);
    trim_spec(if valid_utf8(b) { decode_utf8(b) } else { "Unknown CPU"@ })
}

/// Decodes the processor name from the twelve CPUID brand-string registers.
pub fn get_cpu_name(registers: &[u32; 12]) -> (name: String)
    ensures
        name@ == cpu_name(registers@),
{
    let mut brand_string: Vec<u8> = Vec::new();
    let mut n: usize = 0;
    while n < 48
        invariant
            n <= 48,
            brand_string@ == brand_bytes(registers@).take(n as int),
        decreases 48 - n,
    {
        let reg = registers[n / 4];
        let byte = ((reg >> (8 * (n % 4)) as u32) & 0xff) as u8;
        brand_string.push(byte);
        proof {
            assert(brand_string@ =~= brand_bytes(registers@).take(n as int + 1));
        }
        n = n + 1;
    }
    proof {
        assert(brand_string@ =~= brand_bytes(registers@));
    }
    let text: &str = match utf8_text(brand_string.as_slice()) {
        Some(s) => s,
        None => "Unknown CPU",
    };
    trim(text).to_owned()
}

/// The brand bytes are the registers laid out little-endian: four consecutive
/// bytes put back together give each register.
pub proof fn lemma_brand_bytes_little_endian(registers: Seq<u32>, k: int)
    requires
        0 <= k < 12,
    ensures
        ({
            let b = brand_bytes(registers);
            (b[4 * k] as u32) | ((b[4 * k + 1] as u32) << 8u32) | ((b[4 * k + 2] as u32) << 16u32) | ((b[4
                * k + 3] as u32) << 24u32) == registers[k]
        }),
{
    let r = registers[k];
    let b = brand_bytes(registers);
    assert((4 * k) / 4 == k && (4 * k) % 4 == 0);
    assert((4 * k + 1) / 4 == k && (4 * k + 1) % 4 == 1);
    assert((4 * k + 2) / 4 == k && (4 * k + 2) % 4 == 2);
    assert((4 * k + 3) / 4 == k && (4 * k + 3) % 4 == 3);
    assert(b[4 * k] == ((r >> 0u32) & 0xff) as u8);
    assert(b[4 * k + 1] == ((r >> 8u32) & 0xff) as u8);
    assert(b[4 * k + 2] == ((r >> 16u32) & 0xff) as u8);
    assert(b[4 * k + 3] == ((r >> 24u32) & 0xff) as u8);
    assert((((r >> 0u32) & 0xff) as u8 as u32) | ((((r >> 8u32) & 0xff) as u8 as u32) << 8u32) | ((((r
        >> 16u32) & 0xff) as u8 as u32) << 16u32) | ((((r >> 24u32) & 0xff) as u8 as u32) << 24u32) == r)
        by (bit_vector);
}

} // verus!
