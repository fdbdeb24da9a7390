//! The one-shot onboarding message: given network credentials, build the
//! single provisioning packet that a dedicated, short-lived encrypted
//! connection delivers to the device. Building the packet is independent
//! of the registry and the command channel; delivering it is the
//! caller's side of the boundary.

use vstd::prelude::*;
use vstd::utf8::is_ascii_chars;
use crate::codec::{encode_request, spec_request_bytes, zero_bytes};
use crate::envelope::RequestOptions;
use crate::message::{Command, CommandModel};

verus! {

/// The string null-padded up to `target` characters; a string already
/// long enough stays as it is.
pub open spec fn spec_pad_nulls(s: Seq<char>, target: nat) -> Seq<char> {
    if s.len() >= target {
        s
    } else {
        s + Seq::new((target - s.len()) as nat, |i: int| '\0')
    }
}

/// Appends null characters until the string reaches the target length;
/// an input already at or past it is returned unchanged.
pub fn pad_with_nulls(input: &str, target_length: usize) -> (r: String)
    ensures
        r@ == spec_pad_nulls(input@, target_length as nat),
{
    let mut padded = String::from_str(input);
    let mut len = input.unicode_len();
    proof {
        assert(padded@ =~= input@ + Seq::new(0, |i: int| '\0'));
    }
    while len < target_length
        invariant
            input@.len() <= len,
            len <= target_length || len == input@.len(),
            input@.len() >= target_length ==> len == input@.len(),
            padded@.len() == len,
            padded@ == input@ + Seq::new((len - input@.len()) as nat, |i: int| '\0'),
        decreases target_length - len,
    {
        padded.push('\0');
        len = len + 1;
        proof {
            assert(padded@ =~= input@ + Seq::new((len - input@.len()) as nat, |i: int| '\0'));
        }
    }
    proof {
        if input@.len() >= target_length {
            assert(padded@ =~= input@);
        }
    }
    padded
}

/// Null-padding an ASCII string stays ASCII.
pub proof fn lemma_pad_nulls_ascii(s: Seq<char>, target: nat)
    requires
        is_ascii_chars(s),
    ensures
        is_ascii_chars(spec_pad_nulls(s, target)),
        spec_pad_nulls(s, target).len() == if s.len() >= target {
            s.len()
        } else {
            target
        },
{
    let p = spec_pad_nulls(s, target);
    assert forall|i: int| 0 <= i < p.len() implies '\0' <= #[trigger] p[i] <= '\u{7f}' by {
        if i < s.len() {
            assert(s[i] == p[i]);
        }
    }
}

/// The envelope the onboarding packet travels under: tagged, from source
/// zero, acknowledgment and response both required, sequence zero — the
/// one-shot call correlates nothing.
pub open spec fn is_onboarding_envelope(o: RequestOptions) -> bool {
    o.tagged == true && o.source == 0 && o.target@ == zero_bytes(8) && o.ack_required == true
        && o.res_required == true && o.sequence == 0
}

/// The wire interface selector of the provisioning message.
pub const ONBOARD_INTERFACE: u8 = 2;

/// The security-protocol selector of the provisioning message.
pub const ONBOARD_PROTOCOL: u8 = 5;

/// Builds the one onboarding packet: SSID and passphrase each null-padded
/// to their fixed wire widths, carried in a set-access-point message under
/// the onboarding envelope. Returns the envelope and the encoded bytes.
pub fn build_onboarding_request(ssid: &str, password: &str) -> (r: (RequestOptions, Vec<u8>))
    requires
        is_ascii_chars(ssid@),
        ssid@.len() <= 32,
        is_ascii_chars(password@),
        password@.len() <= 64,
    ensures
        is_onboarding_envelope(r.0),
        r.1@ == spec_request_bytes(
            r.0,
            (CommandModel::SetAccessPoint {
                interface: ONBOARD_INTERFACE,
                ssid: spec_pad_nulls(ssid@, 32),
                password: spec_pad_nulls(password@, 64),
                protocol: ONBOARD_PROTOCOL,
            }),
        ),
{
    let padded_ssid = pad_with_nulls(ssid, 32);
    let padded_password = pad_with_nulls(password, 64);
    proof {
        lemma_pad_nulls_ascii(ssid@, 32);
        lemma_pad_nulls_ascii(password@, 64);
    }
    let options = RequestOptions {
        tagged: true,
        source: 0,
        target: [0u8; 8],
        ack_required: true,
        res_required: true,
        sequence: 0,
    };
    proof {
        assert(options.target@ =~= zero_bytes(8));
    }
    let message = Command::SetAccessPoint {
        interface: ONBOARD_INTERFACE,
        ssid: padded_ssid,
        password: padded_password,
        protocol: ONBOARD_PROTOCOL,
    };
    let bytes = encode_request(&options, &message);
    (options, bytes)
}

} // verus!
