use vstd::prelude::*;
use subxt_signer::sr25519::Keypair;
use subxt_signer::SecretUri;
use vstd::string::StringExecFns;

verus! {

#[verifier::external_type_specification]
#[verifier::external_body]
pub struct ExKeypair(Keypair);

/// Why a bench key could not be made; the index is that of the key.
#[derive(Clone, Copy, Debug, PartialEq, Eq, Structural)]
pub enum KeyError {
    /// The secret URI of the key did not parse.
    InvalidUri(u32),
    /// The key could not be derived from its parsed URI.
    Derivation(u32),
}

/// The decimal digit `d`.
pub open spec fn digit_char(d: nat) -> char {
    seq!['0', '1', '2', '3', '4', '5', '6', '7', '8', '9'][d as int]
}

/// `n` written in decimal, without leading zeros.
pub open spec fn decimal(n: nat) -> Seq<char>
    decreases n,
{
    if n < 10 {
        seq![digit_char(n)]
    } else {
        decimal(n / 10).push(digit_char(n % 10))
    }
}

/// The secret URI of bench key `index` of the group `prefix`:
/// `//bench-<prefix>:<index>`.
pub open spec fn bench_uri_of(prefix: Seq<char>, index: nat) -> Seq<char> {
    seq!['/', '/', 'b', 'e', 'n', 'c', 'h', '-'] + prefix + seq![':'] + decimal(index)
}

/// Whether `s` is a secret URI in the form that subxt_signer reads.
pub uninterp spec fn uri_parses(s: Seq<char>) -> bool;

/// Whether subxt_signer derives an sr25519 key from the parsed secret URI `s`.
pub uninterp spec fn key_derivable(s: Seq<char>) -> bool;

/// The one-character text of decimal digit `d`.
fn digit_str(d: u32) -> (r: &'static str)
    requires
        d < 10,
    ensures
        r@ == seq![digit_char(d as nat)],
{
    proof {
        reveal_strlit("0");
        reveal_strlit("1");
        reveal_strlit("2");
        reveal_strlit("3");
        reveal_strlit("4");
        reveal_strlit("5");
        reveal_strlit("6");
        reveal_strlit("7");
        reveal_strlit("8");
        reveal_strlit("9");
    }
    let r = if d == 0 {
        "0"
    } else if d == 1 {
        "1"
    } else if d == 2 {
        "2"
    } else if d == 3 {
        "3"
    } else if d == 4 {
        "4"
    } else if d == 5 {
        "5"
    } else if d == 6 {
        "6"
    } else if d == 7 {
        "7"
    } else if d == 8 {
        "8"
    } else {
        "9"
    };
    assert(r@ =~= seq![digit_char(d as nat)]);
    r
}

/// `n` written in decimal.
fn decimal_string(n: u32) -> (r: String)
    ensures
        r@ == decimal(n as nat),
    decreases n,
{
    if n < 10 {
        String::from_str(digit_str(n))
    } else {
        let mut s = decimal_string(n / 10);
        s.append(digit_str(n % 10));
        assert(s@ =~= decimal(n as nat));
        s
    }
}

/// The secret URI of bench key `index` of the group `prefix`.
fn bench_uri(prefix: &str, index: u32) -> (r: String)
    ensures
        r@ == bench_uri_of(prefix@, index as nat),
{
    proof {
        reveal_strlit("//bench-");
        reveal_strlit(":");
    }
    let mut s = String::from_str("//bench-");
    s.append(prefix);
    s.append(":");
    let digits = decimal_string(index);
    s.append(digits.as_str());
    assert(s@ =~= bench_uri_of(prefix@, index as nat));
    s
}

/// Why a secret URI text gave no key.
enum UriFailure {
    Parse,
    Derive,
}

/// Relies on `SecretUri::from_str` of subxt_signer (whether the text parses
/// depends on the text alone) and on its `sr25519::Keypair::from_uri`
/// (whether the parsed URI gives a key depends on it alone).
#[verifier::external_body]
fn keypair_from_text(s: &str) -> (r: Result<Keypair, UriFailure>)
    ensures
        r is Ok <==> (uri_parses(s@) && key_derivable(s@)),
        r is Err ==> (r->Err_0 is Parse <==> !uri_parses(s@)),
{
    match <SecretUri as core::str::FromStr>::from_str(s) {
        Err(_) => Err(UriFailure::Parse),
        Ok(uri) => Keypair::from_uri(&uri).map_err(|_| UriFailure::Derive),
    }
}

/// Whether bench key `i` of `prefix` can be made.
pub open spec fn bench_key_ok(prefix: Seq<char>, i: nat) -> bool {
    uri_parses(bench_uri_of(prefix, i)) && key_derivable(bench_uri_of(prefix, i))
}

/// Derives `num` bench keys of the group `prefix`, key `i` from the secret URI
/// `//bench-<prefix>:<i>`. Stops at the first key that cannot be made.
pub fn generate_bench_key_pairs(prefix: &str, num: u32) -> (r: Result<Vec<Keypair>, KeyError>)
    ensures
        r is Ok <==> forall|i: nat| i < num ==> #[trigger] bench_key_ok(prefix@, i),
        r matches Ok(keys) ==> keys.len() == num,
        r matches Err(KeyError::InvalidUri(i)) ==> {
            &&& i < num
            &&& !uri_parses(bench_uri_of(prefix@, i as nat))
            &&& forall|j: nat| j < i ==> #[trigger] bench_key_ok(prefix@, j)
        },
        r matches Err(KeyError::Derivation(i)) ==> {
            &&& i < num
            &&& uri_parses(bench_uri_of(prefix@, i as nat))
            &&& !key_derivable(bench_uri_of(prefix@, i as nat))
            &&& forall|j: nat| j < i ==> #[trigger] bench_key_ok(prefix@, j)
        },
{
    let mut keys: Vec<Keypair> = Vec::new();
    let mut i: u32 = 0;
    while i < num
        invariant
            i <= num,
            keys.len() == i,
            forall|j: nat| j < i ==> #[trigger] bench_key_ok(prefix@, j),
        decreases num - i,
    {
        let text = bench_uri(prefix, i);
        match keypair_from_text(text.as_str()) {
            Ok(key) => keys.push(key),
            Err(UriFailure::Parse) => {
                assert(!bench_key_ok(prefix@, i as nat));
                return Err(KeyError::InvalidUri(i));
            },
            Err(UriFailure::Derive) => {
                assert(!bench_key_ok(prefix@, i as nat));
                return Err(KeyError::Derivation(i));
            },
        }
        i = i + 1;
    }
    Ok(keys)
}

} // verus!
