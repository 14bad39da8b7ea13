use vstd::prelude::*;
use vstd::string::*;

use crate::error::ExportError;
use crate::image::{base64_text, encode_image};
use crate::symbols::{resolve_addresses, resolve_listing, Addresses};

verus! {

/// The lower-case hexadecimal digit for `d < 16`.
pub open spec fn hex_char(d: nat) -> char {
    if d < 10 {
        ((48 + d) as u8) as char
    } else {
        ((87 + d) as u8) as char
    }
}

/// `v` in lower-case hexadecimal, without leading zeros (`0` for zero).
pub open spec fn hex_lower(v: nat) -> Seq<char>
    decreases v,
{
    if v < 16 {
        seq![hex_char(v)]
    } else {
        hex_lower(v / 16) + seq![hex_char(v % 16)]
    }
}

/// The descriptor record for the probe runtime: the algorithm's name, its image
/// as base64 text, and the five entry addresses as `0x`-prefixed hexadecimal.
pub open spec fn descriptor_text(name: Seq<char>, instructions: Seq<char>, a: Addresses) -> Seq<char> {
    "flash_algorithm:\n  - name: "@ + name + "\n    instructions: \""@ + instructions
        + "\"\n    pc_init: 0x"@ + hex_lower(a.init as nat) + "\n    pc_uninit: 0x"@ + hex_lower(
        a.uninit as nat,
    ) + "\n    pc_program_page: 0x"@ + hex_lower(a.program_page as nat)
        + "\n    pc_erase_sector: 0x"@ + hex_lower(a.erase_sector as nat)
        + "\n    pc_erase_all: 0x"@ + hex_lower(a.erase_chip as nat) + "\n"@
}

fn hex_digit_str(d: u64) -> (r: &'static str)
    requires
        d < 16,
    ensures
        r@ == seq![hex_char(d as nat)],
{
    match d {
        0 => {
            proof {
                reveal_strlit("0");
            }
            "0"
        },
        1 => {
            proof {
                reveal_strlit("1");
            }
            "1"
        },
        2 => {
            proof {
                reveal_strlit("2");
            }
            "2"
        },
        3 => {
            proof {
                reveal_strlit("3");
            }
            "3"
        },
        4 => {
            proof {
                reveal_strlit("4");
            }
            "4"
        },
        5 => {
            proof {
                reveal_strlit("5");
            }
            "5"
        },
        6 => {
            proof {
                reveal_strlit("6");
            }
            "6"
        },
        7 => {
            proof {
                reveal_strlit("7");
            }
            "7"
        },
        8 => {
            proof {
                reveal_strlit("8");
            }
            "8"
        },
        9 => {
            proof {
                reveal_strlit("9");
            }
            "9"
        },
        10 => {
            proof {
                reveal_strlit("a");
            }
            "a"
        },
        11 => {
            proof {
                reveal_strlit("b");
            }
            "b"
        },
        12 => {
            proof {
                reveal_strlit("c");
            }
            "c"
        },
        13 => {
            proof {
                reveal_strlit("d");
            }
            "d"
        },
        14 => {
            proof {
                reveal_strlit("e");
            }
            "e"
        },
        _ => {
            proof {
                reveal_strlit("f");
            }
            "f"
        },
    }
}

/// Appends `v` in lower-case hexadecimal.
pub fn push_hex(out: &mut String, v: u64)
    ensures
        final(out)@ == old(out)@ + hex_lower(v as nat),
    decreases v,
{
    if v >= 16 {
        push_hex(out, v / 16);
    }
    out.append(hex_digit_str(v % 16));
    assert(final(out)@ =~= old(out)@ + hex_lower(v as nat));
}

/// Renders the descriptor record for an algorithm named `name` whose image is
/// the base64 text `instructions`.
pub fn render_descriptor(name: &str, instructions: &str, a: &Addresses) -> (r: String)
    ensures
        r@ == descriptor_text(name@, instructions@, *a),
{
    let mut out = String::new();
    out.append("flash_algorithm:\n  - name: ");
    out.append(name);
    out.append("\n    instructions: \"");
    out.append(instructions);
    out.append("\"\n    pc_init: 0x");
    push_hex(&mut out, a.init);
    out.append("\n    pc_uninit: 0x");
    push_hex(&mut out, a.uninit);
    out.append("\n    pc_program_page: 0x");
    push_hex(&mut out, a.program_page);
    out.append("\n    pc_erase_sector: 0x");
    push_hex(&mut out, a.erase_sector);
    out.append("\n    pc_erase_all: 0x");
    push_hex(&mut out, a.erase_chip);
    out.append("\n");
    assert(out@ =~= descriptor_text(name@, instructions@, *a));
    out
}

/// Builds the descriptor of an algorithm from its symbol listing and its flat
/// binary image: the listing's entry addresses, the image as base64 text.
/// Fails exactly when the listing does not resolve, with its error.
pub fn build_descriptor(name: &str, listing: &[u8], image: &[u8]) -> (r: Result<String, ExportError>)
    ensures
        match resolve_listing(listing@) {
            Ok(a) => r is Ok && r->Ok_0@ == descriptor_text(name@, base64_text(image@), a),
            Err(e) => r == Err::<String, ExportError>(e),
        },
{
    match resolve_addresses(listing) {
        Err(e) => Err(e),
        Ok(a) => {
            let instructions = encode_image(image);
            Ok(render_descriptor(name, instructions.as_str(), &a))
        },
    }
}

} // verus!
