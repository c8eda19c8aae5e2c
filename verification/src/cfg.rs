use vstd::prelude::*;

verus! {

/// The pretty-printed encoding, without a trailing newline, of the
/// control-flow graph decoded from one bytecode buffer. Decoding and
/// encoding are both functions of the bytes alone, so the result only
/// carries this name; nothing else is assumed of it.
pub uninterp spec fn cfg_json_of(code: Seq<u8>) -> Seq<u8>;

/// The little-endian 16-bit value at offset `i` of `b`.
pub open spec fn le16_at(b: Seq<u8>, i: int) -> int {
    b[i] + 256 * b[i + 1]
}

/// Whether a skip-walk over `k` actions starting at offset `q` stays inside
/// the buffer: each step needs one code byte, and a code of 128 or more
/// needs a two-byte length whose declared body must also fit. The decoder
/// performs exactly this walk for a wait-for-frame instruction and aborts
/// when it runs out of bytes.
pub open spec fn skip_walk_ok(b: Seq<u8>, q: int, k: int) -> bool
    decreases k,
{
    if k <= 0 {
        true
    } else if q >= b.len() {
        false
    } else if b[q] < 128 {
        skip_walk_ok(b, q + 1, k - 1)
    } else if q + 3 > b.len() {
        false
    } else if q + 3 + le16_at(b, q + 1) > b.len() {
        false
    } else {
        skip_walk_ok(b, q + 3 + le16_at(b, q + 1), k - 1)
    }
}

/// Whether decoding an action read at offset `p` of `b` could abort the
/// decoder. Two instruction families can: the two wait-for-frame codes
/// (138, 141) walk their skip count of actions and abort when the walk
/// leaves the buffer, and the two branch codes (153, 157) abort on the one
/// offset value -32768. The condition only fires where the action's header
/// and declared body are themselves in bounds: anywhere else the decoder
/// yields an error action instead of reading on.
pub open spec fn decode_hazard_at(b: Seq<u8>, p: int) -> bool {
    &&& p + 3 <= b.len()
    &&& p + 3 + le16_at(b, p + 1) <= b.len()
    &&& {
        ||| (b[p] == 138 && le16_at(b, p + 1) >= 3 && !skip_walk_ok(
            b,
            p + 3 + le16_at(b, p + 1),
            b[p + 5] as int,
        ))
        ||| (b[p] == 141 && le16_at(b, p + 1) >= 1 && !skip_walk_ok(
            b,
            p + 3 + le16_at(b, p + 1),
            b[p + 3] as int,
        ))
        ||| ((b[p] == 153 || b[p] == 157) && le16_at(b, p + 1) >= 2 && b[p + 3] == 0 && b[p + 4]
            == 128)
    }
}

/// Whether the decoder accepts the buffer without aborting: no offset holds
/// a decode hazard. Branch targets can land the decoder at any offset, so
/// every position is checked, which makes this a conservative bound: a
/// buffer that passes decodes safely.
pub open spec fn cfg_decodable(b: Seq<u8>) -> bool {
    forall|p: int| 0 <= p < b.len() ==> !decode_hazard_at(b, p)
}

fn skip_walk_is_ok(b: &Vec<u8>, q0: usize, k0: u8) -> (r: bool)
    requires
        q0 <= b@.len(),
    ensures
        r == skip_walk_ok(b@, q0 as int, k0 as int),
{
    let mut q: usize = q0;
    let mut k: u8 = k0;
    while k > 0
        invariant
            q <= b@.len(),
            skip_walk_ok(b@, q0 as int, k0 as int) == skip_walk_ok(b@, q as int, k as int),
        decreases k,
    {
        if q >= b.len() {
            return false;
        }
        if b[q] < 128 {
            q = q + 1;
        } else {
            if b.len() - q < 3 {
                return false;
            }
            let body: usize = b[q + 1] as usize + 256 * (b[q + 2] as usize);
            if body > b.len() - (q + 3) {
                return false;
            }
            q = q + 3 + body;
        }
        k = k - 1;
    }
    true
}

/// Decides whether the decoder accepts the buffer: true exactly when no
/// offset holds a decode hazard.
pub fn check_cfg_decodable(b: &Vec<u8>) -> (r: bool)
    ensures
        r == cfg_decodable(b@),
{
    let mut p: usize = 0;
    while p < b.len()
        invariant
            p <= b@.len(),
            forall|p2: int| 0 <= p2 < p ==> !decode_hazard_at(b@, p2),
        decreases b@.len() - p,
    {
        let c = b[p];
        if (c == 138 || c == 141 || c == 153 || c == 157) && b.len() - p >= 3 {
            let body: usize = b[p + 1] as usize + 256 * (b[p + 2] as usize);
            if body <= b.len() - (p + 3) {
                if c == 138 && body >= 3 {
                    if !skip_walk_is_ok(b, p + 3 + body, b[p + 5]) {
                        proof {
                            assert(decode_hazard_at(b@, p as int));
                        }
                        return false;
                    }
                } else if c == 141 && body >= 1 {
                    if !skip_walk_is_ok(b, p + 3 + body, b[p + 3]) {
                        proof {
                            assert(decode_hazard_at(b@, p as int));
                        }
                        return false;
                    }
                } else if (c == 153 || c == 157) && body >= 2 {
                    if b[p + 3] == 0 && b[p + 4] == 128 {
                        proof {
                            assert(decode_hazard_at(b@, p as int));
                        }
                        return false;
                    }
                }
            }
        }
        proof {
            assert(!decode_hazard_at(b@, p as int));
        }
        p = p + 1;
    }
    true
}

/// Relies on avm1_parser::parse_cfg, which decodes a byte buffer into a
/// control-flow graph and, on a buffer free of decode hazards, returns
/// without aborting (malformed actions become error nodes), and on
/// serde_json_v8::to_vec_pretty, which pretty-prints the graph to an
/// in-memory buffer without failing; the composed result depends on the
/// input bytes alone.
#[verifier::external_body]
pub(crate) fn decode_cfg_json(code: &Vec<u8>) -> (r: Vec<u8>)
    requires
        cfg_decodable(code@),
    ensures
        r@ == cfg_json_of(code@),
{
    let graph: avm1_types::cfg::Cfg = avm1_parser::parse_cfg(code);
    serde_json_v8::to_vec_pretty(&graph).unwrap_or_default()
}

} // verus!
