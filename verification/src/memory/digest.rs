//! The digest of a job's turns. It is a polynomial in the turns' own digests,
//! so that the digest of two queues one after the other, and of what is left of
//! a queue behind a prefix, follow from the digests alone.
use crate::error::{conflict, DbError};
use crate::hash::{
    be_number, is_digest_text, law_digest_text_tells_apart, leading_number, sha256, sha256_hex,
    sha256_hex_of, sha256_of, told_apart,
};
use crate::json::{
    encode_array, encode_object, json_array_bytes, json_object_bytes, json_opt, json_text,
    named_alike, text_or_null, JsonField, JsonScalar,
};
use crate::table::model;
use crate::text::{hex_fixed, hex_of_number, hex_parsed, law_hex_round_trip, opt_str, parse_hex};
use vstd::arithmetic::div_mod::{
    lemma_add_mod_noop, lemma_mod_add_multiples_vanish, lemma_mod_bound, lemma_mod_twice,
    lemma_mul_mod_noop_left, lemma_mul_mod_noop_right, lemma_small_mod, lemma_sub_mod_noop,
};
use vstd::arithmetic::power::{
    lemma_pow0, lemma_pow1, lemma_pow_adds, lemma_pow_mod_noop, lemma_pow_multiplies, pow,
};
use vstd::prelude::*;

verus! {

/// The multiplier of the digest polynomial.
pub const QUEUE_DIGEST_MULTIPLIER: u128 = 0x100000001b3;

/// Digests are numbers below this one.
pub open spec fn digest_modulus() -> int {
    u128::MAX + 1
}

/// The digest of one turn: the first sixteen bytes of a hash over its id and
/// the hash of its messages.
pub open spec fn turn_digest(turn_id: Seq<char>, turn_hash: Seq<char>) -> int {
    be_number(
        sha256_of(
            json_array_bytes(seq![JsonScalar::Text(turn_id), JsonScalar::Text(turn_hash)]),
        ).take(16),
    ) as int
}

/// The digest of a queue with one more turn behind it.
pub open spec fn appended_digest(current: int, turn_id: Seq<char>, turn_hash: Seq<char>) -> int {
    (current * QUEUE_DIGEST_MULTIPLIER + turn_digest(turn_id, turn_hash)) % digest_modulus()
}

/// The digest of turns in order, each given by its id and its hash.
pub open spec fn turns_digest(turns: Seq<(Seq<char>, Seq<char>)>) -> int
    decreases turns.len(),
{
    if turns.len() == 0 {
        0
    } else {
        appended_digest(turns_digest(turns.drop_last()), turns.last().0, turns.last().1)
    }
}

/// What a digest is multiplied by when `count` turns come behind it.
pub open spec fn shift_factor(count: nat) -> int {
    pow(QUEUE_DIGEST_MULTIPLIER as int, count) % digest_modulus()
}

/// The digest of two queues one after the other.
pub open spec fn joined_digest(left: int, right: int, right_count: nat) -> int {
    (left * shift_factor(right_count) + right) % digest_modulus()
}

/// The digest of what is left of a queue behind a prefix.
pub open spec fn rest_digest(whole: int, prefix: int, rest_count: nat) -> int {
    (whole - prefix * shift_factor(rest_count)) % digest_modulus()
}

/// The error for a stored digest that is no hexadecimal number.
pub open spec fn bad_digest() -> DbError<Seq<char>> {
    DbError::Conflict("Invalid Memory queue digest"@)
}

/// The error for a negative number of turns.
pub open spec fn bad_length() -> DbError<Seq<char>> {
    DbError::Conflict("Invalid Memory queue length"@)
}

/// Computes the digest of one turn.
pub fn queue_item_digest(turn_id: &str, turn_hash: &str) -> (digest: u128)
    ensures
        digest == turn_digest(turn_id@, turn_hash@),
{
    let mut items: Vec<JsonScalar> = Vec::new();
    items.push(json_text(turn_id));
    items.push(json_text(turn_hash));
    assert(model(items@) =~= seq![JsonScalar::Text(turn_id@), JsonScalar::Text(turn_hash@)]);
    leading_number(&sha256(&encode_array(items)))
}

/// Reads a stored digest.
pub fn parse_queue_digest(value: &str) -> (digest: Result<u128, DbError>)
    ensures
        match digest {
            Ok(number) => hex_parsed(value@) == Some(number as int),
            Err(error) => hex_parsed(value@) is None && error@ == bad_digest(),
        },
{
    match parse_hex(value) {
        Some(number) => Ok(number),
        None => Err(conflict("Invalid Memory queue digest")),
    }
}

/// Writes a digest as it is stored.
pub fn queue_digest(value: u128) -> (text: String)
    ensures
        text@ == hex_fixed(value as nat, 32),
{
    hex_of_number(value, 32)
}

proof fn lemma_power_step(result: int, base: int, exponent: nat)
    requires
        exponent > 0,
    ensures
        ({
            let kept = if exponent % 2 == 1 {
                (result * base) % digest_modulus()
            } else {
                result
            };
            (kept * pow((base * base) % digest_modulus(), exponent / 2)) % digest_modulus() == (
            result * pow(base, exponent)) % digest_modulus()
        }),
{
    let n = digest_modulus();
    let half = exponent / 2;
    let square = base * base;
    let kept = if exponent % 2 == 1 {
        (result * base) % n
    } else {
        result
    };
    assert(pow(base, 2) == square) by {
        lemma_pow1(base);
        lemma_pow_adds(base, 1, 1);
    }
    lemma_pow_multiplies(base, 2, half);
    assert(pow(square, half) == pow(base, 2 * half));
    lemma_pow_mod_noop(square, half, n);
    lemma_mul_mod_noop_right(kept, pow(square % n, half), n);
    lemma_mul_mod_noop_right(kept, pow(square, half), n);
    assert((kept * pow(square % n, half)) % n == (kept * pow(square, half)) % n);
    if exponent % 2 == 1 {
        lemma_mul_mod_noop_left(result * base, pow(square, half), n);
        lemma_pow1(base);
        lemma_pow_adds(base, 1, 2 * half);
        assert(1 + 2 * half == exponent);
        assert((result * base) * pow(square, half) == result * (base * pow(base, 2 * half)))
            by (nonlinear_arith)
            requires
                pow(square, half) == pow(base, 2 * half),
        ;
    } else {
        assert(2 * half == exponent);
    }
}

/// Computes the factor for `count` turns by repeated squaring.
pub fn queue_power(count: i64) -> (factor: Result<u128, DbError>)
    ensures
        match factor {
            Ok(number) => count >= 0 && number == shift_factor(count as nat),
            Err(error) => count < 0 && error@ == bad_length(),
        },
{
    if count < 0 {
        return Err(conflict("Invalid Memory queue length"));
    }
    let mut base: u128 = QUEUE_DIGEST_MULTIPLIER;
    let mut exponent: u64 = count as u64;
    let mut result: u128 = 1;
    proof {
        assert(1 * pow(base as int, exponent as nat) == pow(base as int, exponent as nat));
    }
    while exponent > 0
        invariant
            (result * pow(base as int, exponent as nat)) % digest_modulus() == shift_factor(
                count as nat,
            ),
        decreases exponent,
    {
        let ghost old_result = result as int;
        let ghost old_base = base as int;
        proof {
            lemma_power_step(old_result, old_base, exponent as nat);
        }
        if exponent % 2 == 1 {
            result = result.wrapping_mul(base);
        }
        base = base.wrapping_mul(base);
        exponent = exponent / 2;
    }
    proof {
        lemma_pow0(base as int);
        lemma_small_mod(result as nat, digest_modulus() as nat);
    }
    Ok(result)
}

/// Computes the digest of a queue with one more turn behind it.
pub fn append_queue_digest(current: u128, turn_id: &str, turn_hash: &str) -> (digest: u128)
    ensures
        digest == appended_digest(current as int, turn_id@, turn_hash@),
{
    let item: u128 = queue_item_digest(turn_id, turn_hash);
    let digest: u128 = current.wrapping_mul(QUEUE_DIGEST_MULTIPLIER).wrapping_add(item);
    proof {
        lemma_wrapped_sum(current * QUEUE_DIGEST_MULTIPLIER, item as int);
    }
    digest
}

proof fn lemma_wrapped_sum(product: int, term: int)
    requires
        0 <= term < digest_modulus(),
    ensures
        ({
            let sum = product % digest_modulus() + term;
            (product + term) % digest_modulus() == if sum >= digest_modulus() {
                sum - digest_modulus()
            } else {
                sum
            }
        }),
{
    let n = digest_modulus();
    lemma_mod_bound(product, n);
    lemma_small_mod(term as nat, n as nat);
    lemma_add_mod_noop(product, term, n);
    let sum = product % n + term;
    assert((product + term) % n == sum % n);
    if sum >= n {
        lemma_small_mod((sum - n) as nat, n as nat);
        lemma_mod_add_multiples_vanish(sum - n, n);
    } else {
        lemma_small_mod(sum as nat, n as nat);
    }
}

/// Computes the digest of two queues one after the other.
pub fn concat_queue_digest(left: u128, right: u128, right_count: i64) -> (digest: Result<
    u128,
    DbError,
>)
    ensures
        match digest {
            Ok(number) => right_count >= 0 && number == joined_digest(
                left as int,
                right as int,
                right_count as nat,
            ),
            Err(error) => right_count < 0 && error@ == bad_length(),
        },
{
    match queue_power(right_count) {
        Ok(factor) => {
            proof {
                lemma_wrapped_sum(left * factor, right as int);
            }
            Ok(left.wrapping_mul(factor).wrapping_add(right))
        },
        Err(error) => Err(error),
    }
}

/// Computes the digest of what is left of a queue behind a prefix.
pub fn remove_prefix_digest(whole: u128, prefix: u128, rest_count: i64) -> (digest: Result<
    u128,
    DbError,
>)
    ensures
        match digest {
            Ok(number) => rest_count >= 0 && number == rest_digest(
                whole as int,
                prefix as int,
                rest_count as nat,
            ),
            Err(error) => rest_count < 0 && error@ == bad_length(),
        },
{
    match queue_power(rest_count) {
        Ok(factor) => {
            let shifted: u128 = prefix.wrapping_mul(factor);
            proof {
                let n = digest_modulus();
                let product = prefix * factor;
                lemma_mod_bound(product, n);
                lemma_small_mod(whole as nat, n as nat);
                lemma_sub_mod_noop(whole as int, product, n);
                let gap = whole - product % n;
                assert((whole - product) % n == gap % n);
                if gap < 0 {
                    lemma_small_mod((gap + n) as nat, n as nat);
                    lemma_mod_add_multiples_vanish(gap, n);
                } else {
                    lemma_small_mod(gap as nat, n as nat);
                }
            }
            Ok(whole.wrapping_sub(shifted))
        },
        Err(error) => Err(error),
    }
}

/// The JSON object that a job's input hash covers.
pub open spec fn input_fields(
    operation_version: Seq<char>,
    global_epoch: i64,
    conversation_epoch: i64,
    from_turn_id: Option<Seq<char>>,
    turn_count: i64,
    digest: int,
) -> Seq<JsonField<Seq<char>>> {
    seq![
        JsonField { name: "operation_version"@, value: JsonScalar::Text(operation_version) },
        JsonField { name: "global_epoch"@, value: JsonScalar::Int(global_epoch) },
        JsonField { name: "conversation_epoch"@, value: JsonScalar::Int(conversation_epoch) },
        JsonField { name: "from_turn_id"@, value: text_or_null(from_turn_id) },
        JsonField { name: "turn_count"@, value: JsonScalar::Int(turn_count) },
        JsonField { name: "queue_digest"@, value: JsonScalar::Text(hex_fixed(digest as nat, 32)) },
    ]
}

/// What a job's input hash is taken of, in JSON.
pub open spec fn input_bytes(
    operation_version: Seq<char>,
    global_epoch: i64,
    conversation_epoch: i64,
    from_turn_id: Option<Seq<char>>,
    turn_count: i64,
    digest: int,
) -> Seq<u8> {
    json_object_bytes(
        input_fields(
            operation_version,
            global_epoch,
            conversation_epoch,
            from_turn_id,
            turn_count,
            digest,
        ),
    )
}

/// A job's input hash: what it starts from, how many turns it covers and their
/// digest.
pub open spec fn input_hash_of(
    operation_version: Seq<char>,
    global_epoch: i64,
    conversation_epoch: i64,
    from_turn_id: Option<Seq<char>>,
    turn_count: i64,
    digest: int,
) -> Seq<char> {
    sha256_hex_of(
        input_bytes(
            operation_version,
            global_epoch,
            conversation_epoch,
            from_turn_id,
            turn_count,
            digest,
        ),
    )
}

/// The names of a job's input are the same for every input, each once.
proof fn lemma_input_named_alike(
    a: (Seq<char>, i64, i64, Option<Seq<char>>, i64, int),
    b: (Seq<char>, i64, i64, Option<Seq<char>>, i64, int),
)
    ensures
        named_alike(
            input_fields(a.0, a.1, a.2, a.3, a.4, a.5),
            input_fields(b.0, b.1, b.2, b.3, b.4, b.5),
        ),
{
    reveal_strlit("operation_version");
    reveal_strlit("global_epoch");
    reveal_strlit("conversation_epoch");
    reveal_strlit("from_turn_id");
    reveal_strlit("turn_count");
    reveal_strlit("queue_digest");
    assert("operation_version"@[0] == 'o' && "global_epoch"@[0] == 'g' && "conversation_epoch"@[0]
        == 'c' && "from_turn_id"@[0] == 'f' && "turn_count"@[0] == 't' && "queue_digest"@[0]
        == 'q');
}

/// Inputs of the same members are the same.
proof fn lemma_input_fields(
    a: (Seq<char>, i64, i64, Option<Seq<char>>, i64, int),
    b: (Seq<char>, i64, i64, Option<Seq<char>>, i64, int),
)
    requires
        0 <= a.5 <= u128::MAX,
        0 <= b.5 <= u128::MAX,
        input_fields(a.0, a.1, a.2, a.3, a.4, a.5) == input_fields(b.0, b.1, b.2, b.3, b.4, b.5),
    ensures
        a == b,
{
    let left = input_fields(a.0, a.1, a.2, a.3, a.4, a.5);
    let right = input_fields(b.0, b.1, b.2, b.3, b.4, b.5);
    assert(left[0].value == right[0].value && left[1].value == right[1].value);
    assert(left[2].value == right[2].value && left[3].value == right[3].value);
    assert(left[4].value == right[4].value && left[5].value == right[5].value);
    law_hex_round_trip(a.5 as u128);
    law_hex_round_trip(b.5 as u128);
}

fn field(name: &str, value: JsonScalar) -> (field: JsonField)
    ensures
        field@ == (JsonField { name: name@, value: value@ }),
{
    JsonField { name: name.to_owned(), value }
}

/// Computes a job's input hash. It is the hash of another input only where the
/// two agree in all six parts, unless the hash fails to tell them apart.
pub fn input_hash(
    operation_version: &str,
    global_epoch: i64,
    conversation_epoch: i64,
    from_turn_id: Option<&str>,
    turn_count: i64,
    digest: u128,
) -> (hash: String)
    ensures
        hash@ == input_hash_of(
            operation_version@,
            global_epoch,
            conversation_epoch,
            opt_str(from_turn_id),
            turn_count,
            digest as int,
        ),
        is_digest_text(hash@),
        forall|
            version: Seq<char>,
            global: i64,
            conversation: i64,
            from: Option<Seq<char>>,
            count: i64,
            other: int,
        |
            0 <= other <= u128::MAX && told_apart(
                input_bytes(
                    operation_version@,
                    global_epoch,
                    conversation_epoch,
                    opt_str(from_turn_id),
                    turn_count,
                    digest as int,
                ),
                input_bytes(version, global, conversation, from, count, other),
            ) ==> (#[trigger] input_hash_of(version, global, conversation, from, count, other)
                == hash@ <==> version == operation_version@ && global == global_epoch
                && conversation == conversation_epoch && from == opt_str(from_turn_id) && count
                == turn_count && other == digest),
{
    let mut fields: Vec<JsonField> = Vec::new();
    fields.push(field("operation_version", json_text(operation_version)));
    fields.push(field("global_epoch", JsonScalar::Int(global_epoch)));
    fields.push(field("conversation_epoch", JsonScalar::Int(conversation_epoch)));
    fields.push(field("from_turn_id", json_opt(from_turn_id)));
    fields.push(field("turn_count", JsonScalar::Int(turn_count)));
    fields.push(field("queue_digest", json_text(queue_digest(digest).as_str())));
    let ghost own = (
        operation_version@,
        global_epoch,
        conversation_epoch,
        opt_str(from_turn_id),
        turn_count,
        digest as int,
    );
    assert(model(fields@) =~= input_fields(own.0, own.1, own.2, own.3, own.4, own.5));
    let bytes = encode_object(fields);
    let hash = sha256_hex(&bytes);
    proof {
        assert forall|
            version: Seq<char>,
            global: i64,
            conversation: i64,
            from: Option<Seq<char>>,
            count: i64,
            other: int,
        |
            0 <= other <= u128::MAX && told_apart(
                bytes@,
                input_bytes(version, global, conversation, from, count, other),
            ) && #[trigger] input_hash_of(version, global, conversation, from, count, other)
                == hash@ implies (version, global, conversation, from, count, other) == own by {
            law_digest_text_tells_apart(
                bytes@,
                input_bytes(version, global, conversation, from, count, other),
            );
            lemma_input_named_alike(own, (version, global, conversation, from, count, other));
            lemma_input_fields(own, (version, global, conversation, from, count, other));
        }
    }
    hash
}

// ----------------------------------------------------------------------------
// What the digest promises
// ----------------------------------------------------------------------------

/// A digest lies below the modulus, so it can be stored and read back.
pub proof fn law_digest_range(turns: Seq<(Seq<char>, Seq<char>)>)
    ensures
        0 <= turns_digest(turns) < digest_modulus(),
{
    if turns.len() > 0 {
        lemma_mod_bound(
            turns_digest(turns.drop_last()) * QUEUE_DIGEST_MULTIPLIER + turn_digest(
                turns.last().0,
                turns.last().1,
            ),
            digest_modulus(),
        );
    }
}

proof fn lemma_shift_factor_step(count: nat, left: int)
    ensures
        (left * shift_factor(count + 1)) % digest_modulus() == ((left * shift_factor(count))
            * QUEUE_DIGEST_MULTIPLIER) % digest_modulus(),
{
    let n = digest_modulus();
    let m = QUEUE_DIGEST_MULTIPLIER as int;
    let p = pow(m, count);
    lemma_pow1(m);
    lemma_pow_adds(m, count, 1);
    assert(pow(m, count + 1) == p * m);
    lemma_mul_mod_noop_right(left, p * m, n);
    assert((left * shift_factor(count + 1)) % n == (left * (p * m)) % n);
    lemma_mul_mod_noop_right(left * m, p, n);
    assert(((left * m) * (p % n)) % n == ((left * m) * p) % n);
    assert((left * (p % n)) * m == (left * m) * (p % n)) by (nonlinear_arith);
    assert(left * (p * m) == (left * m) * p) by (nonlinear_arith);
}

/// The digest of two queues one after the other is the join of their digests.
pub proof fn law_digest_of_joined_queues(
    left: Seq<(Seq<char>, Seq<char>)>,
    right: Seq<(Seq<char>, Seq<char>)>,
)
    ensures
        turns_digest(left + right) == joined_digest(
            turns_digest(left),
            turns_digest(right),
            right.len(),
        ),
    decreases right.len(),
{
    let n = digest_modulus();
    let m = QUEUE_DIGEST_MULTIPLIER as int;
    law_digest_range(left);
    law_digest_range(right);
    if right.len() == 0 {
        assert(left + right =~= left);
        lemma_pow0(m);
        lemma_small_mod(1, n as nat);
        assert(shift_factor(0) == 1);
        let whole = turns_digest(left);
        assert(whole * 1 + 0 == whole);
        lemma_small_mod(whole as nat, n as nat);
    } else {
        let front = right.drop_last();
        let last = right.last();
        let item = turn_digest(last.0, last.1);
        law_digest_of_joined_queues(left, front);
        assert((left + right).drop_last() =~= left + front);
        let count = front.len();
        let dl = turns_digest(left);
        let df = turns_digest(front);
        let x = dl * shift_factor(count) + df;
        // The digest of the whole is ((x mod n) * m + item) mod n.
        lemma_mul_mod_noop_left(x, m, n);
        lemma_add_mod_noop((x % n) * m, item, n);
        lemma_add_mod_noop(x * m, item, n);
        assert(turns_digest(left + right) == (x * m + item) % n);
        // The join is (dl * factor(count + 1) + ((df * m + item) mod n)) mod n.
        lemma_shift_factor_step(count, dl);
        let y = dl * shift_factor(count + 1);
        let z = df * m + item;
        lemma_add_mod_noop(y, z % n, n);
        lemma_mod_twice(z, n);
        lemma_add_mod_noop(y, z, n);
        assert((y + z % n) % n == (y + z) % n);
        lemma_add_mod_noop((dl * shift_factor(count)) * m, z, n);
        assert((y + z) % n == ((dl * shift_factor(count)) * m + z) % n);
        assert((dl * shift_factor(count)) * m + z == x * m + item) by (nonlinear_arith)
            requires
                x == dl * shift_factor(count) + df,
                z == df * m + item,
        ;
    }
}

/// One more turn behind a queue is the join with a queue of that turn alone.
pub proof fn law_append_is_join_with_one(
    turns: Seq<(Seq<char>, Seq<char>)>,
    turn: (Seq<char>, Seq<char>),
)
    ensures
        turns_digest(turns.push(turn)) == appended_digest(turns_digest(turns), turn.0, turn.1),
        turns_digest(turns.push(turn)) == joined_digest(
            turns_digest(turns),
            turns_digest(seq![turn]),
            1,
        ),
{
    assert(turns.push(turn).drop_last() =~= turns);
    law_digest_of_joined_queues(turns, seq![turn]);
    assert(turns + seq![turn] =~= turns.push(turn));
}

/// Taking a prefix's digest out of a queue's digest leaves the digest of the
/// rest.
pub proof fn law_digest_of_rest(
    prefix: Seq<(Seq<char>, Seq<char>)>,
    rest: Seq<(Seq<char>, Seq<char>)>,
)
    ensures
        rest_digest(turns_digest(prefix + rest), turns_digest(prefix), rest.len()) == turns_digest(
            rest,
        ),
{
    let n = digest_modulus();
    law_digest_of_joined_queues(prefix, rest);
    law_digest_range(rest);
    let a = turns_digest(prefix) * shift_factor(rest.len());
    let b = turns_digest(rest);
    lemma_sub_mod_noop(a + b, a, n);
    lemma_mod_twice(a + b, n);
    lemma_sub_mod_noop((a + b) % n, a, n);
    assert(((a + b) % n - a) % n == b % n);
    lemma_small_mod(b as nat, n as nat);
}

/// Splitting a queue's digest and joining the parts again gives the digest.
pub proof fn law_split_then_join(whole: int, prefix: int, rest_count: nat)
    requires
        0 <= whole < digest_modulus(),
    ensures
        joined_digest(prefix, rest_digest(whole, prefix, rest_count), rest_count) == whole,
{
    let n = digest_modulus();
    let a = prefix * shift_factor(rest_count);
    lemma_add_mod_noop(a, (whole - a) % n, n);
    lemma_mod_twice(whole - a, n);
    lemma_add_mod_noop(a, whole - a, n);
    assert(a + (whole - a) == whole);
    lemma_small_mod(whole as nat, n as nat);
}

/// A stored digest reads back as the number that was stored.
pub proof fn law_stored_digest_reads_back(turns: Seq<(Seq<char>, Seq<char>)>)
    ensures
        hex_parsed(hex_fixed(turns_digest(turns) as nat, 32)) == Some(turns_digest(turns)),
{
    law_digest_range(turns);
    law_hex_round_trip(turns_digest(turns) as u128);
}

} // verus!
