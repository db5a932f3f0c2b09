use rand::rngs::{StdRng, SysRng};
use rand::SeedableRng;
use reticulum_sdk::destination::DestinationName;
use reticulum_sdk::hash::AddressHash;
use reticulum_sdk::identity::PrivateIdentity;
use rns_tools::address::{destination_hash, parse_destination};
use rns_tools::identity_files::{
    check_decrypt, check_encrypt, check_overwrite, check_sign, check_validate, decrypt_chunk,
    decrypt_target, encrypt_chunk, encrypt_target, load_simple_meta, message_file, message_source,
    require_paths, sign_file, sign_message, signature_file, validate_file, validate_message,
    validation_target, wrap_rsg, write_target, MessageSource, SignOutput, Target,
};
use rns_tools::identity_store::{identity_line, plan_identity, stored_identity, Plan};
use rns_tools::identity_tool::{
    decode_identity_input, describe_origin, encode_key, expand_home, export_prv_identity,
    export_pub_identity, get_operating_identity, needs_identity, output_encoding, parse_args, plan,
    print_hash_information, print_identity_information, public_identity, read_private_identity,
    split_aspects, validate_args, Args, Origin, PathFacts, Source, Task,
};
use rns_tools::keys::WorkingIdentity;
use rns_tools::rsg::{create_rsg, embedded_message, parse_rsg_envelope, validate_rsg, Encoding};

const PRIVATE: &str = "77076d0a7318a57d3c16c17251b26645df4c2f92ebc0992ac177fba51db92c2a9d61b19deffd5a60ba844af492ec2cc44449c5697b326919703bac031cae7f60";
const PUBLIC: &str = "f8a9535a2d2ff605e8e144d54f4ef5c62313a2055dbb21fddd3fd9c299eb015dd75a980182b10ab7d54bfed3c964073a0ee172f3daa62325af021a68f707511a";

fn strings(v: &[&str]) -> Vec<String> {
    v.iter().map(|s| s.to_string()).collect()
}

fn args(v: &[&str]) -> Args {
    match parse_args(&strings(v)) {
        Ok(a) => a,
        Err(e) => panic!("{e:?}"),
    }
}

fn private() -> Vec<u8> {
    hex::decode(PRIVATE).unwrap()
}

#[test]
fn destination_hash_uses_name_hash_and_identity_hash() {
    let identity_hash = [7u8; 16];
    let name = DestinationName::new("rns", "id");
    let mut input = Vec::new();
    input.extend_from_slice(name.as_name_hash_slice());
    input.extend_from_slice(&identity_hash);
    let expected = AddressHash::new_from_slice(&input);

    assert_eq!(destination_hash("rns", "id", &identity_hash), expected.as_slice().to_vec());
    assert_eq!(hex::encode(destination_hash("rns", "id", &identity_hash)), "2957cad2ae44c29c29d857e5aacb9234");
}

#[test]
fn rsg_validates_against_embedded_public_key() {
    let mut rng = StdRng::try_from_rng(&mut SysRng).unwrap();
    let identity = PrivateIdentity::new_from_rand(&mut rng);
    let keys = hex::decode(identity.to_hex_string()).unwrap();
    let message = b"hello";
    let rsg = create_rsg(&keys, message, true, &Vec::new(), Encoding::Bin);
    let (valid, signer) = validate_rsg(&rsg, message, None).unwrap();
    assert!(valid);
    let signer = WorkingIdentity::Public(signer.unwrap());
    assert_eq!(
        signer.identity_hash().as_slice(),
        identity.address_hash().as_slice()
    );
}

#[test]
fn signed_data_is_for_its_message_only() {
    let rsg = create_rsg(&private(), b"hello", true, &Vec::new(), Encoding::Bin);
    assert_eq!(validate_rsg(&rsg, b"other", None).unwrap(), (false, None));
    let own = hex::decode(PUBLIC).unwrap();
    let id = WorkingIdentity::Public(own.clone()).identity_hash();
    assert_eq!(validate_rsg(&rsg, b"hello", Some(&id)).unwrap(), (true, Some(own.clone())));
    assert_eq!(
        validate_rsg(&rsg, b"hello", Some(&[0; 16])).unwrap(),
        (false, Some(own.clone()))
    );
    let mut unsigned = rsg.clone();
    unsigned[0] ^= 1;
    assert_eq!(validate_rsg(&unsigned, b"hello", None).unwrap(), (false, Some(own)));
    let env = parse_rsg_envelope(&rsg).unwrap();
    assert_eq!(embedded_message(&env), Some(b"hello".to_vec()));
    let bare = create_rsg(&private(), b"hello", false, &Vec::new(), Encoding::Bin);
    assert_eq!(embedded_message(&parse_rsg_envelope(&bare).unwrap()), None);
    assert!(validate_rsg(b"junk", b"", None).is_err());
    let mut broken = rsg.clone();
    let n = broken.len();
    broken[n - 1] ^= 1;
    let b = validate_rsg(&broken, b"hello", None);
    assert!(!matches!(b, Ok((true, _))));
}

#[test]
fn signed_data_has_encodings() {
    for (e, check) in [
        (Encoding::Hex, 16),
        (Encoding::Base32, 32),
        (Encoding::Base64, 64),
        (Encoding::Base256, 256),
    ] {
        let bin = create_rsg(&private(), b"m", false, &Vec::new(), Encoding::Bin);
        let out = create_rsg(&private(), b"m", false, &Vec::new(), e);
        assert_ne!(bin, out, "{check}");
        let text = String::from_utf8(out).unwrap();
        let back = match e {
            Encoding::Hex => hex::decode(&text).unwrap(),
            Encoding::Base32 => rns_tools::codec::base32_decode(&text).unwrap(),
            Encoding::Base256 => rns_tools::codec::base256_decode(&text).unwrap(),
            _ => {
                assert!(text.chars().all(|c| c.is_ascii_alphanumeric() || "+/=-_".contains(c)));
                continue;
            }
        };
        assert_eq!(back, bin);
    }
}

#[test]
fn destinations_are_given_in_digits() {
    assert_eq!(parse_destination(&"ab".repeat(16)), Ok(vec![0xab; 16]));
    assert_eq!(parse_destination("ab").unwrap_err(), "destination must be 32 hex chars");
    assert_eq!(parse_destination(&"zz".repeat(16)).unwrap_err(), "invalid destination hash");
}

#[test]
fn keys_are_read_in_every_encoding() {
    let (b, o) = decode_identity_input(PRIVATE, None, 64, false).unwrap();
    assert_eq!((b, o), (private(), Origin::Hex));
    let b32 = rns_tools::codec::base32_encode(&private());
    let (b, o) = decode_identity_input(&b32, None, 64, false).unwrap();
    assert_eq!((b, o), (private(), Origin::Base32));
    let b64 = "dwdtCnMYpX08FsFyUbJmRd9ML5LrwJkqwXf7pR25LCqdYbGd7_1aYLqESvSS7CzEREnFaXsyaRlwO6wDHK5_YA==";
    let (b, o) = decode_identity_input(b64, None, 64, false).unwrap();
    assert_eq!((b, o), (private(), Origin::Base64));
    let b256 = rns_tools::codec::base256_encode(&private());
    let (b, o) = decode_identity_input(&b256, None, 64, false).unwrap();
    assert_eq!((b, o), (private(), Origin::Base256));
    let (b, o) = decode_identity_input("f", Some(private()), 64, false).unwrap();
    assert_eq!((b, o), (private(), Origin::File));
    assert!(decode_identity_input("?", None, 64, false).is_err());
    assert!(!describe_origin(Origin::File, "f").is_empty());
}

#[test]
fn identities_are_shown() {
    let w = read_private_identity(&private()).unwrap();
    assert_eq!(hex::encode(w.public_key_bytes()), PUBLIC);
    let a = args(&["-p"]);
    let lines = print_identity_information(&a, &w);
    assert!(lines[0].starts_with("Identity Hash : /"));
    assert!(!lines.iter().any(|l| l.contains(PRIVATE)));
    let a = args(&["-p", "-P"]);
    assert!(print_identity_information(&a, &w).iter().any(|l| l.contains(PRIVATE)));
    assert_eq!(
        export_pub_identity(&args(&["--hex"]), &w),
        format!("Public Identity Keys  : {PUBLIC}")
    );
    assert!(export_prv_identity(&args(&["--hex"]), &w).unwrap().ends_with(&format!(" : {PRIVATE}")));
    let p = public_identity(hex::decode(PUBLIC).unwrap()).unwrap();
    assert!(export_prv_identity(&args(&["--hex"]), &p).is_err());
    assert!(read_private_identity(b"short").is_err());
    assert!(read_private_identity(PRIVATE.as_bytes()).is_ok());
    assert_eq!(encode_key(&args(&["--hex"]), &[0xab]), "ab");
    assert_eq!(output_encoding(&args(&[])), Encoding::Bin);
    assert_eq!(split_aspects("app.a.b").unwrap(), ("app".to_string(), "a.b".to_string()));
    assert_eq!(print_hash_information("rns.id", Some(&w), None).unwrap().len(), 2);
    assert_eq!(
        print_hash_information("rns.id", None, Some(&"07".repeat(16))).unwrap(),
        vec!["The rns.id destination for this Identity is /2957cad2ae44c29c29d857e5aacb9234/"]
    );
    assert_eq!(
        print_hash_information("rns.id", None, Some("07")).unwrap_err().message,
        "Invalid identity hash length"
    );
    assert!(print_hash_information("rns.id", None, None).is_err());
    assert_eq!(
        print_hash_information("", Some(&w), None).unwrap_err().message,
        "Invalid destination aspects specified"
    );
}

#[test]
fn identity_options() {
    assert!(parse_args(&strings(&["--bogus"])).is_err());
    assert!(validate_args(&args(&["-g", "f"])).is_ok());
    assert!(validate_args(&args(&["-s", "f", "-V", "g"])).is_err());
    assert!(needs_identity(&args(&["-s", "f"])));
    let there = PathFacts { exists: true, is_file: true };
    let missing = PathFacts { exists: false, is_file: false };
    assert_eq!(
        get_operating_identity(&args(&["-i", "f"]), "f", there, false).unwrap(),
        Source::Load
    );
    assert_eq!(
        get_operating_identity(&args(&["-i", "f"]), "f", missing, false).unwrap(),
        Source::Nowhere
    );
    assert!(get_operating_identity(&args(&["-i", "f", "-N"]), "f", missing, false).is_err());
    assert!(get_operating_identity(&args(&["-i", &"ab".repeat(16)]), "f", missing, false).is_err());
    assert_eq!(
        get_operating_identity(&args(&["-g", "f"]), "f", missing, false).unwrap(),
        Source::Generate
    );
    assert!(get_operating_identity(&args(&["-g", "f"]), "f", there, false).is_err());
    assert_eq!(expand_home("~/x", Some("/h")), "/h/x");
    assert_eq!(expand_home("x", Some("/h")), "x");
}

#[test]
fn files_are_signed_and_validated() {
    let a = args(&["-s", "f"]);
    let sig = match sign_file(&a, &private(), b"data") {
        SignOutput::File(b) => b,
        other => panic!("{other:?}"),
    };
    assert!(validate_file(&sig, b"data", "f.rsg", "f", None).is_ok());
    assert!(validate_file(&sig, b"changed", "f.rsg", "f", None).is_err());
    assert_eq!(signature_file("f"), "f.rsg");
    assert!(matches!(validation_target("f.rsg"), Target::File(s, f) if s == "f.rsg" && f == "f"));
    assert!(matches!(validation_target("m.rsm"), Target::Message));
    assert!(check_validate("f", false, true).is_err());
    assert!(check_validate("f", true, false).is_err());
    assert!(check_validate("f", true, true).is_ok());
    assert!(check_sign(&a, false, "f", "f", true, false).is_err());
    assert!(check_sign(&a, true, "f", "f", false, false).is_err());
    assert!(check_sign(&a, true, "f", "f", true, true).is_err());
    assert!(check_sign(&args(&["-s", "f", "-f"]), true, "f", "f", true, true).is_ok());
    assert!(check_sign(&a, true, "f", "f", true, false).is_ok());
    assert!(require_paths(&Vec::new(), "sign").is_err());
    let a = args(&["-S", "hello", "--hex"]);
    assert!(matches!(message_source(&a, true), Ok(MessageSource::Given(m)) if m == "hello"));
    let m = match sign_message(&a, &private(), b"hello", &Vec::new()) {
        Ok(SignOutput::Show(s)) => s,
        other => panic!("{other:?}"),
    };
    assert!(m.starts_with('\n') && m.ends_with('\n'));
    assert!(sign_message(&a, &private(), b"", &Vec::new()).is_err());
    assert!(message_source(&args(&["-S", "hello"]), true).is_err());
    assert!(message_source(&a, false).is_err());
    let rsm = create_rsg(&private(), b"hello", true, &Vec::new(), Encoding::Bin);
    assert!(validate_message(&rsm, "m", None, true).is_ok());
    assert_eq!(message_file("m"), "m.rsm");
    assert!(wrap_rsg(&rsm).contains('\n'));
    assert_eq!(
        load_simple_meta("a = 1\n# c\nb=2\n"),
        vec![("a".to_string(), "1".to_string()), ("b".to_string(), "2".to_string())]
    );
    assert!(check_overwrite(true, false, "x", "p", "y").is_err());
    assert!(check_overwrite(true, true, "x", "p", "y").is_ok());
}

#[test]
fn keys_of_no_identity_do_not_encrypt() {
    let mut keys = hex::decode(PUBLIC).unwrap();
    let known = WorkingIdentity::Public(keys.clone());
    assert!(encrypt_chunk("dir/f", &known, b"secret", [3; 32]).is_ok());
    keys.truncate(32);
    keys.push(2);
    keys.resize(64, 0);
    let e = encrypt_chunk("dir/f", &WorkingIdentity::Public(keys), b"secret", [3; 32]).unwrap_err();
    assert_eq!(e.code, 254);
    assert_eq!(e.message, "Could not encrypt dir/f: CryptoError");
}

#[test]
fn encryption_is_undone() {
    let w = WorkingIdentity::Private(private());
    let c = encrypt_chunk("f", &w, b"secret", [3; 32]).unwrap();
    assert_ne!(c, b"secret".to_vec());
    assert_eq!(decrypt_chunk(&private(), &c).unwrap(), b"secret".to_vec());
    let mut broken = c.clone();
    broken[40] ^= 1;
    assert!(decrypt_chunk(&private(), &broken).is_err());
    let again = encrypt_chunk("f", &w, b"secret", [4; 32]).unwrap();
    assert_ne!(c, again);
    assert_eq!(encrypt_target("f", None), "f.rfe");
    assert_eq!(encrypt_target("f", Some("g")), "g");
    assert_eq!(decrypt_target(true, "f.rfe", "f.rfe", None).unwrap(), "f");
    assert!(decrypt_target(false, "f.rfe", "f.rfe", None).is_err());
    assert!(check_encrypt("f", false, "g", false, false).is_err());
    assert!(check_encrypt("f", true, "g", true, false).is_err());
    assert!(check_decrypt("f", true, "g", false, false).is_ok());
    assert!(check_decrypt("f", false, "g", false, false).is_err());
    assert!(write_target(true, true, "p").is_ok());
}

#[test]
fn tools_keep_their_identity() {
    assert!(matches!(
        plan_identity(&Some("g".to_string()), true, "o", false),
        Ok(Plan::Read(p)) if p == "g"
    ));
    assert_eq!(
        plan_identity(&Some("g".to_string()), false, "o", true).unwrap_err(),
        "identity not found: g"
    );
    assert!(matches!(plan_identity(&None, false, "o", true), Ok(Plan::Read(p)) if p == "o"));
    assert!(matches!(plan_identity(&None, false, "o", false), Ok(Plan::Create(p)) if p == "o"));
    assert_eq!(identity_line(&private()), format!("{PRIVATE}\n"));
    assert_eq!(stored_identity(&identity_line(&private()), "f"), Ok(private()));
    assert_eq!(stored_identity("x", "\"f\"").unwrap_err(), "bad identity \"f\": IncorrectHash");
}

#[test]
fn runs_do_what_is_asked_for_in_order() {
    let a = args(&["-w", "out", "-H", "lxmf.delivery", "-X", "-x", "-s", "file"]);
    assert_eq!(
        plan(&a, true).unwrap(),
        vec![
            Task::ExportPublic,
            Task::ExportPrivate,
            Task::ShowHash,
            Task::Sign,
            Task::WriteIdentity,
        ]
    );
    let e = plan(&a, false).unwrap_err();
    assert_eq!(e.message, "Could not get working identity");
    // Announcing is refused, after what comes before it.
    let a = args(&["-a", "-x", "-e", "file"]);
    assert_eq!(plan(&a, true).unwrap(), vec![Task::ExportPublic, Task::RefuseAnnounce]);
    // A run that prints the identity ends with that.
    let a = args(&["-p", "-x", "-s", "file", "-w", "out"]);
    assert_eq!(plan(&a, true).unwrap(), vec![Task::PrintIdentity]);
    assert!(plan(&a, false).is_err());
    // What needs no identity is done without one.
    let a = args(&["-V", "file", "-H", "lxmf.delivery"]);
    assert_eq!(plan(&a, false).unwrap(), vec![Task::ShowHash, Task::Validate]);
    assert_eq!(plan(&args(&[]), false).unwrap(), vec![Task::ShowHelp]);
    assert_eq!(plan(&args(&["-g", "file"]), true).unwrap(), vec![]);
}
