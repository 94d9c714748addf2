use musig2::{
    aggregate_partial_signatures, aggregate_signatures, generate_partial_nonces, partial_sign, ExpandedKeyPair,
    MusigError, PartialNonces, PartialSignature, PublicKeyAgg, Signature,
};

fn scalar(n: u8) -> [u8; 32] {
    let mut s = [0u8; 32];
    s[0] = n;
    s
}

fn keypair(n: u8) -> ExpandedKeyPair {
    let mut prefix = [0u8; 32];
    for (i, b) in prefix.iter_mut().enumerate() {
        *b = n.wrapping_mul(31).wrapping_add(i as u8);
    }
    ExpandedKeyPair::from_secrets(scalar(n), prefix)
}

fn randomness(party: u8, session: u8) -> [[u8; 32]; 2] {
    [[party ^ 0x5a ^ session; 32], [party.wrapping_add(0x33) ^ session; 32]]
}

/// Runs the whole protocol for `parties` over `message` and returns the signature
/// and the aggregate key.
fn run_protocol(parties: &[ExpandedKeyPair], message: &[u8], session: u8) -> (Signature, [u8; 32]) {
    let keys: Vec<[u8; 32]> = parties.iter().map(|p| p.public_key).collect();
    let aggs: Vec<PublicKeyAgg> = parties
        .iter()
        .map(|p| PublicKeyAgg::key_aggregation_n(keys.clone(), &p.public_key).unwrap())
        .collect();
    let nonces: Vec<PartialNonces> = parties
        .iter()
        .enumerate()
        .map(|(i, p)| generate_partial_nonces(p, Some(message), &randomness(i as u8, session)))
        .collect();
    let mut partials: Vec<PartialSignature> = Vec::new();
    for (i, p) in parties.iter().enumerate() {
        let others: Vec<[[u8; 32]; 2]> = nonces
            .iter()
            .enumerate()
            .filter(|(j, _)| *j != i)
            .map(|(_, n)| n.R)
            .collect();
        let own = PartialNonces { r: nonces[i].r, R: nonces[i].R };
        partials.push(partial_sign(&others, own, &aggs[i], p, message).unwrap());
    }
    for ps in &partials {
        assert_eq!(ps.R, partials[0].R);
    }
    let other_s: Vec<[u8; 32]> = partials[1..].iter().map(|p| p.my_partial_s).collect();
    let sig = aggregate_partial_signatures(&partials[0], &other_s);
    (sig, aggs[0].agg_public_key)
}

const BASE_POINT: [u8; 32] = [
    0x58, 0x66, 0x66, 0x66, 0x66, 0x66, 0x66, 0x66, 0x66, 0x66, 0x66, 0x66, 0x66, 0x66, 0x66, 0x66,
    0x66, 0x66, 0x66, 0x66, 0x66, 0x66, 0x66, 0x66, 0x66, 0x66, 0x66, 0x66, 0x66, 0x66, 0x66, 0x66,
];

/// The point of order two, (0, -1): a curve point outside the prime-order group.
const ORDER_TWO_POINT: [u8; 32] = [
    0xec, 0xff, 0xff, 0xff, 0xff, 0xff, 0xff, 0xff, 0xff, 0xff, 0xff, 0xff, 0xff, 0xff, 0xff, 0xff,
    0xff, 0xff, 0xff, 0xff, 0xff, 0xff, 0xff, 0xff, 0xff, 0xff, 0xff, 0xff, 0xff, 0xff, 0xff, 0x7f,
];

#[test]
fn public_key_of_scalar_one_is_the_base_point() {
    assert_eq!(keypair(1).public_key, BASE_POINT);
    assert_ne!(keypair(2).public_key, BASE_POINT);
}

#[test]
fn key_aggregation_ignores_key_order() {
    let a = keypair(3).public_key;
    let b = keypair(5).public_key;
    let c = keypair(9).public_key;
    let first = PublicKeyAgg::key_aggregation_n(vec![a, b, c], &b).unwrap();
    for order in [vec![c, b, a], vec![b, a, c], vec![c, a, b]] {
        let other = PublicKeyAgg::key_aggregation_n(order, &b).unwrap();
        assert_eq!(other.agg_public_key, first.agg_public_key);
        assert_eq!(other.musig_coefficient, first.musig_coefficient);
    }
}

#[test]
fn second_distinct_key_has_coefficient_one() {
    let mut keys = vec![keypair(3).public_key, keypair(5).public_key, keypair(9).public_key];
    keys.sort();
    let second = keys[1];
    let agg = PublicKeyAgg::key_aggregation_n(keys.clone(), &second).unwrap();
    assert_eq!(agg.musig_coefficient, scalar(1));
    for k in [keys[0], keys[2]] {
        let other = PublicKeyAgg::key_aggregation_n(keys.clone(), &k).unwrap();
        assert_ne!(other.musig_coefficient, scalar(1));
    }
}

#[test]
fn coefficients_change_with_the_key_set() {
    let mut keys = vec![keypair(3).public_key, keypair(5).public_key, keypair(9).public_key];
    keys.sort();
    let smallest = keys[0];
    let before = PublicKeyAgg::key_aggregation_n(keys.clone(), &smallest).unwrap();
    let mut changed = keys.clone();
    changed.push(keypair(11).public_key);
    let after = PublicKeyAgg::key_aggregation_n(changed, &smallest).unwrap();
    assert_ne!(before.musig_coefficient, after.musig_coefficient);
    assert_ne!(before.agg_public_key, after.agg_public_key);
}

#[test]
fn single_signer_aggregate_is_own_key() {
    let k = keypair(7);
    let agg = PublicKeyAgg::key_aggregation_n(vec![k.public_key], &k.public_key).unwrap();
    assert_eq!(agg.agg_public_key, k.public_key);
    assert_eq!(agg.musig_coefficient, scalar(1));
}

#[test]
fn single_signer_signature_verifies_under_own_key() {
    let k = keypair(7);
    let (sig, agg) = run_protocol(&[k], b"test message", 1);
    assert_eq!(agg, keypair(7).public_key);
    assert!(sig.verify(b"test message", &keypair(7).public_key));
}

#[test]
fn two_party_signature_verifies() {
    let (sig, agg) = run_protocol(&[keypair(3), keypair(5)], b"test message", 1);
    assert!(sig.verify(b"test message", &agg));
    assert!(!sig.verify(b"other message", &agg));
}

#[test]
fn five_party_signature_verifies() {
    let parties: Vec<ExpandedKeyPair> = (1..=5u8).map(|n| keypair(n * 13)).collect();
    let (sig, agg) = run_protocol(&parties, b"five signers", 2);
    assert!(sig.verify(b"five signers", &agg));
}

#[test]
fn effective_nonce_ignores_arrival_order() {
    let parties: Vec<ExpandedKeyPair> = (1..=4u8).map(|n| keypair(n * 7)).collect();
    let keys: Vec<[u8; 32]> = parties.iter().map(|p| p.public_key).collect();
    let agg = PublicKeyAgg::key_aggregation_n(keys, &parties[0].public_key).unwrap();
    let nonces: Vec<PartialNonces> = parties
        .iter()
        .enumerate()
        .map(|(i, p)| generate_partial_nonces(p, None, &randomness(i as u8, 3)))
        .collect();
    let own = || PartialNonces { r: nonces[0].r, R: nonces[0].R };
    let in_order = vec![nonces[1].R, nonces[2].R, nonces[3].R];
    let shuffled = vec![nonces[3].R, nonces[1].R, nonces[2].R];
    let a = partial_sign(&in_order, own(), &agg, &parties[0], b"msg").unwrap();
    let b = partial_sign(&shuffled, own(), &agg, &parties[0], b"msg").unwrap();
    assert_eq!(a.R, b.R);
    assert_eq!(a.my_partial_s, b.my_partial_s);
}

#[test]
fn changing_the_message_before_signing_breaks_the_signature() {
    let parties = [keypair(3), keypair(5)];
    let keys: Vec<[u8; 32]> = parties.iter().map(|p| p.public_key).collect();
    let aggs: Vec<PublicKeyAgg> = parties
        .iter()
        .map(|p| PublicKeyAgg::key_aggregation_n(keys.clone(), &p.public_key).unwrap())
        .collect();
    let nonces: Vec<PartialNonces> = parties
        .iter()
        .enumerate()
        .map(|(i, p)| generate_partial_nonces(p, Some(b"agreed"), &randomness(i as u8, 4)))
        .collect();
    let own0 = PartialNonces { r: nonces[0].r, R: nonces[0].R };
    let own1 = PartialNonces { r: nonces[1].r, R: nonces[1].R };
    let first = partial_sign(&[nonces[1].R], own0, &aggs[0], &parties[0], b"agreed").unwrap();
    let second = partial_sign(&[nonces[0].R], own1, &aggs[1], &parties[1], b"swapped").unwrap();
    assert_ne!(first.R, second.R);
    let sig = aggregate_partial_signatures(&first, &[second.my_partial_s]);
    assert!(!sig.verify(b"agreed", &aggs[0].agg_public_key));
    assert!(!sig.verify(b"swapped", &aggs[0].agg_public_key));
}

#[test]
fn golden_vector_two_parties() {
    let (sig, agg) = run_protocol(&[keypair(3), keypair(5)], b"test message", 7);
    let (again, _) = run_protocol(&[keypair(3), keypair(5)], b"test message", 7);
    assert_eq!(sig.R, again.R);
    assert_eq!(sig.s, again.s);
    assert!(sig.verify(b"test message", &agg));
    assert_eq!(sig.R, GOLDEN_R, "R = {:02x?}", sig.R);
    assert_eq!(sig.s, GOLDEN_S, "s = {:02x?}", sig.s);
}

const GOLDEN_R: [u8; 32] = [
    25, 85, 10, 4, 50, 125, 101, 105, 13, 83, 48, 12, 150, 81, 61, 141, 222, 11, 236, 0, 54, 95,
    165, 185, 63, 69, 180, 225, 22, 97, 2, 86,
];
const GOLDEN_S: [u8; 32] = [
    108, 69, 15, 91, 25, 98, 59, 156, 129, 72, 20, 211, 161, 50, 214, 6, 45, 53, 126, 253, 105,
    46, 97, 82, 166, 87, 199, 96, 105, 247, 114, 14,
];

#[test]
fn partial_scalars_add_modulo_the_group_order() {
    let mine = PartialSignature { R: BASE_POINT, my_partial_s: scalar(2) };
    let sig = aggregate_partial_signatures(&mine, &[scalar(3), scalar(10)]);
    assert_eq!(sig.R, BASE_POINT);
    assert_eq!(sig.s, scalar(15));
    let alone = aggregate_partial_signatures(&mine, &[]);
    assert_eq!(alone.s, scalar(2));
    // the group order plus one reduces to one
    let mut order_plus_one: [u8; 32] = [
        0xed, 0xd3, 0xf5, 0x5c, 0x1a, 0x63, 0x12, 0x58, 0xd6, 0x9c, 0xf7, 0xa2, 0xde, 0xf9, 0xde,
        0x14, 0, 0, 0, 0, 0, 0, 0, 0, 0, 0, 0, 0, 0, 0, 0, 0x10,
    ];
    order_plus_one[0] += 1;
    let wrapped = aggregate_partial_signatures(
        &PartialSignature { R: BASE_POINT, my_partial_s: order_plus_one },
        &[],
    );
    assert_eq!(wrapped.s, scalar(1));
}

#[test]
fn nonces_depend_on_randomness_and_message() {
    let k = keypair(3);
    let a = generate_partial_nonces(&k, Some(b"m"), &randomness(0, 0));
    let b = generate_partial_nonces(&k, Some(b"m"), &randomness(0, 1));
    let c = generate_partial_nonces(&k, None, &randomness(0, 0));
    let d = generate_partial_nonces(&k, Some(b"m"), &randomness(0, 0));
    assert_ne!(a.r[0], a.r[1]);
    assert_ne!(a.r[0], b.r[0]);
    assert_ne!(a.r[0], c.r[0]);
    assert_eq!(a.r, d.r);
    assert_eq!(a.R, d.R);
    assert_ne!(a.r[0], randomness(0, 0)[0]);
}

#[test]
fn empty_key_set_is_refused() {
    let k = keypair(3).public_key;
    assert!(matches!(
        PublicKeyAgg::key_aggregation_n(vec![], &k),
        Err(MusigError::EmptyKeySet)
    ));
}

#[test]
fn own_key_outside_the_set_is_refused() {
    let keys = vec![keypair(3).public_key, keypair(5).public_key];
    assert!(matches!(
        PublicKeyAgg::key_aggregation_n(keys, &keypair(7).public_key),
        Err(MusigError::MissingOwnKey)
    ));
}

#[test]
fn invalid_key_is_refused() {
    let keys = vec![keypair(3).public_key, ORDER_TWO_POINT];
    assert!(matches!(
        PublicKeyAgg::key_aggregation_n(keys, &keypair(3).public_key),
        Err(MusigError::InvalidPoint)
    ));
}

#[test]
fn invalid_nonce_point_is_refused() {
    let parties = [keypair(3), keypair(5)];
    let keys: Vec<[u8; 32]> = parties.iter().map(|p| p.public_key).collect();
    let agg = PublicKeyAgg::key_aggregation_n(keys, &parties[0].public_key).unwrap();
    let own = generate_partial_nonces(&parties[0], None, &randomness(0, 5));
    let r = partial_sign(&[[BASE_POINT, ORDER_TWO_POINT]], own, &agg, &parties[0], b"m");
    assert!(matches!(r, Err(MusigError::InvalidPoint)));
}

#[test]
fn duplicate_keys_are_aggregated() {
    let a = keypair(3).public_key;
    let b = keypair(5).public_key;
    let agg = PublicKeyAgg::key_aggregation_n(vec![a, b, a], &a).unwrap();
    let again = PublicKeyAgg::key_aggregation_n(vec![a, a, b], &a).unwrap();
    assert_eq!(agg.agg_public_key, again.agg_public_key);
    let same = PublicKeyAgg::key_aggregation_n(vec![a, a], &a).unwrap();
    assert_eq!(same.musig_coefficient, scalar(1));
}

#[test]
fn challenge_depends_on_every_input() {
    let r = keypair(3).public_key;
    let a = keypair(5).public_key;
    let k = Signature::k(&r, &a, b"m");
    assert_ne!(k, Signature::k(&a, &r, b"m"));
    assert_ne!(k, Signature::k(&r, &a, b"n"));
    assert_eq!(k, Signature::k(&r, &a, b"m"));
}

#[test]
fn checked_aggregation_refuses_a_different_nonce() {
    let mine = PartialSignature { R: BASE_POINT, my_partial_s: scalar(2) };
    let same = PartialSignature { R: BASE_POINT, my_partial_s: scalar(4) };
    let other = PartialSignature { R: keypair(3).public_key, my_partial_s: scalar(4) };
    assert!(matches!(aggregate_signatures(&mine, &[same, other]), Err(MusigError::MismatchedNonce)));
    let sig = aggregate_signatures(&mine, &[same, same]).unwrap();
    assert_eq!(sig.R, BASE_POINT);
    assert_eq!(sig.s, scalar(10));
}
