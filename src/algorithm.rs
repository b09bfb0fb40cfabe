use vstd::prelude::*;

verus! {

/// The signature algorithms a header can declare.
#[allow(non_camel_case_types)]
#[derive(Debug, Clone, Copy, PartialEq, Eq, Structural)]
pub enum ALGORITHM {
    HS256,
    HS384,
    HS512,
    RS256,
    RS384,
    RS512,
    ES256,
    ES384,
    ES512,
}

/// Width of the SHA-2 digest that an algorithm uses.
#[derive(Debug, Clone, Copy, PartialEq, Eq, Structural)]
pub enum HashWidth {
    Sha256,
    Sha384,
    Sha512,
}

/// The family of signature an algorithm stands for.
pub enum Family {
    Hmac(HashWidth),
    Rsa(HashWidth),
    Unsupported,
}

pub open spec fn family_of(a: ALGORITHM) -> Family {
    match a {
        ALGORITHM::HS256 => Family::Hmac(HashWidth::Sha256),
        ALGORITHM::HS384 => Family::Hmac(HashWidth::Sha384),
        ALGORITHM::HS512 => Family::Hmac(HashWidth::Sha512),
        ALGORITHM::RS256 => Family::Rsa(HashWidth::Sha256),
        ALGORITHM::RS384 => Family::Rsa(HashWidth::Sha384),
        ALGORITHM::RS512 => Family::Rsa(HashWidth::Sha512),
        _ => Family::Unsupported,
    }
}

/// The name of an algorithm in the `alg` member of a header.
pub open spec fn alg_name(a: ALGORITHM) -> Seq<char> {
    match a {
        ALGORITHM::HS256 => seq!['H', 'S', '2', '5', '6'],
        ALGORITHM::HS384 => seq!['H', 'S', '3', '8', '4'],
        ALGORITHM::HS512 => seq!['H', 'S', '5', '1', '2'],
        ALGORITHM::RS256 => seq!['R', 'S', '2', '5', '6'],
        ALGORITHM::RS384 => seq!['R', 'S', '3', '8', '4'],
        ALGORITHM::RS512 => seq!['R', 'S', '5', '1', '2'],
        ALGORITHM::ES256 => seq!['E', 'S', '2', '5', '6'],
        ALGORITHM::ES384 => seq!['E', 'S', '3', '8', '4'],
        ALGORITHM::ES512 => seq!['E', 'S', '5', '1', '2'],
    }
}

/// The algorithm that a name denotes, if any.
pub open spec fn alg_from_name(s: Seq<char>) -> Option<ALGORITHM> {
    if exists|a: ALGORITHM| alg_name(a) == s {
        Some(choose|a: ALGORITHM| alg_name(a) == s)
    } else {
        None
    }
}

pub proof fn lemma_alg_name_injective(a: ALGORITHM, b: ALGORITHM)
    ensures
        alg_name(a) == alg_name(b) ==> a == b,
{
    if alg_name(a) == alg_name(b) {
        assert(alg_name(a)[0] == alg_name(b)[0]);
        assert(alg_name(a)[2] == alg_name(b)[2]);
    }
}

pub proof fn lemma_alg_from_name(a: ALGORITHM)
    ensures
        alg_from_name(alg_name(a)) == Some(a),
{
    let c = choose|b: ALGORITHM| alg_name(b) == alg_name(a);
    lemma_alg_name_injective(a, c);
}

impl ALGORITHM {
    /// The signature family and digest width of this algorithm.
    pub fn family(&self) -> (r: Family)
        ensures
            r == family_of(*self),
    {
        match self {
            ALGORITHM::HS256 => Family::Hmac(HashWidth::Sha256),
            ALGORITHM::HS384 => Family::Hmac(HashWidth::Sha384),
            ALGORITHM::HS512 => Family::Hmac(HashWidth::Sha512),
            ALGORITHM::RS256 => Family::Rsa(HashWidth::Sha256),
            ALGORITHM::RS384 => Family::Rsa(HashWidth::Sha384),
            ALGORITHM::RS512 => Family::Rsa(HashWidth::Sha512),
            _ => Family::Unsupported,
        }
    }

    /// The name written in a header's `alg` member.
    pub fn name(&self) -> (r: &'static str)
        ensures
            r@ == alg_name(*self),
    {
        let r = match self {
            ALGORITHM::HS256 => "HS256",
            ALGORITHM::HS384 => "HS384",
            ALGORITHM::HS512 => "HS512",
            ALGORITHM::RS256 => "RS256",
            ALGORITHM::RS384 => "RS384",
            ALGORITHM::RS512 => "RS512",
            ALGORITHM::ES256 => "ES256",
            ALGORITHM::ES384 => "ES384",
            ALGORITHM::ES512 => "ES512",
        };
        proof {
            reveal_strlit("HS256");
            reveal_strlit("HS384");
            reveal_strlit("HS512");
            reveal_strlit("RS256");
            reveal_strlit("RS384");
            reveal_strlit("RS512");
            reveal_strlit("ES256");
            reveal_strlit("ES384");
            reveal_strlit("ES512");
        }
        r
    }
}

} // verus!
