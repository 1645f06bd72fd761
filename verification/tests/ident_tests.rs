use always_online_node::Bundle;
use always_online_node::EncodingError;
use always_online_node::Resource;
use always_online_node::canonical_encoding;
use always_online_node::hex_encode;

use sha2::Digest;

fn sample_bundle() -> Bundle {
    Bundle {
        app_name: b"forum".to_vec(),
        resources: vec![
            Resource { path: b"dna/forum.dna".to_vec(), bytes: vec![1, 2, 3, 4] },
            Resource { path: b"manifest.yaml".to_vec(), bytes: b"roles: []".to_vec() },
        ],
    }
}

#[test]
fn hex_encode_renders_two_lowercase_digits_per_byte() {
    assert_eq!(hex_encode(&vec![0xab, 0x01, 0xff]), "ab01ff");
    assert_eq!(hex_encode(&vec![]), "");
    assert_eq!(hex_encode(&vec![0x00]), "00");
}

#[test]
fn canonical_encoding_is_length_prefixed() {
    let bundle = Bundle {
        app_name: b"x".to_vec(),
        resources: vec![Resource { path: b"p".to_vec(), bytes: vec![7, 9] }],
    };
    let mut expected: Vec<u8> = vec![0, 0, 0, 0, 0, 0, 0, 1];
    expected.push(b'x');
    expected.extend([0, 0, 0, 0, 0, 0, 0, 1]);
    expected.extend([0, 0, 0, 0, 0, 0, 0, 1]);
    expected.push(b'p');
    expected.extend([0, 0, 0, 0, 0, 0, 0, 2]);
    expected.extend([7, 9]);
    assert_eq!(canonical_encoding(&bundle), expected);
}

#[test]
fn derive_is_the_hex_digest_of_the_canonical_encoding() {
    let bundle = sample_bundle();
    let id = always_online_node::ident::derive(&bundle).unwrap();
    let digest = sha2::Sha256::digest(&canonical_encoding(&bundle));
    let mut expected = String::new();
    for byte in digest.iter() {
        expected.push_str(&format!("{:02x}", byte));
    }
    assert_eq!(id, expected);
    assert_eq!(id.len(), 64);
}

#[test]
fn derive_known_digest() {
    // The canonical encoding of this bundle is the eight-byte length 1,
    // the byte `a`, and the eight-byte resource count 0.
    let bundle = Bundle { app_name: b"a".to_vec(), resources: vec![] };
    let encoded = canonical_encoding(&bundle);
    assert_eq!(encoded, vec![0, 0, 0, 0, 0, 0, 0, 1, b'a', 0, 0, 0, 0, 0, 0, 0, 0]);
    let digest = sha2::Sha256::digest(&encoded);
    let mut expected = String::new();
    for byte in digest.iter() {
        expected.push_str(&format!("{:02x}", byte));
    }
    assert_eq!(always_online_node::ident::derive(&bundle).unwrap(), expected);
}

#[test]
fn derive_is_deterministic_on_identical_content() {
    let first = always_online_node::ident::derive(&sample_bundle()).unwrap();
    let second = always_online_node::ident::derive(&sample_bundle()).unwrap();
    assert_eq!(first, second);
}

#[test]
fn derive_differs_on_a_single_changed_byte() {
    let mut changed = sample_bundle();
    changed.resources[0].bytes[0] = 2;
    assert_ne!(always_online_node::ident::derive(&sample_bundle()).unwrap(), always_online_node::ident::derive(&changed).unwrap());
}

#[test]
fn derive_rejects_an_empty_application_name() {
    let bundle = Bundle { app_name: vec![], resources: vec![] };
    assert_eq!(always_online_node::ident::derive(&bundle), Err(EncodingError));
}
