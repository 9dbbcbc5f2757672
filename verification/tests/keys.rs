use cepa::encoding::{b64_to_rsa_pub_key, rsa_pub_key_to_b64};
use cepa::error::Error;
use cepa::keys::{clone_bytes, is_canonical, PrivateKey, PublicKey};

const KEY_TEXT: &str = "LS0tLS1CRUdJTiBSU0EgUFVCTElDIEtFWS0tLS0tDQpNSUlCQ2dLQ0FRRUF4VHNta0ovZEVTb2VtVVcxRlZqSDBxZzlUc0x4bmtFaThLNk5vNXU2dnQrZU5hbWpjVlpHDQpCWm9SVmMwWkJBM2NoNGFqWGRkU0lPbGUwblVkbURLUUlOWXVGL1dvNW9EQXJHbnVXNmFEMFpOd09pRmZlWEcrDQp5RkdHVjhyakZXc1RydzFaZkVSTWczSlpzdnM1UEdZKzBRNk9TaXRmNDZ0T2R3T1oxM09RYXBPT1ZNdHdiQUNTDQoycjdYZFlQK1pBcUt0ZGNNLzQ0RGNoaThsQmtKSVltY204cjBUWFRPcEhKZWJDaXN0ejY3QVFkdnRUNExsOHEyDQowRERvZjgyczJSaitYS3crVDVpRXJqVnFUY0hRL3Z5YXNQdVQxK0R4VDJjVzNpcUVISjN2a0ltdDBrdUJTcCtCDQpXek5INmpLTzVGVnc3bkR3QlhYRE9QTGFkZ1FERTZFV053SURBUUFCDQotLS0tLUVORCBSU0EgUFVCTElDIEtFWS0tLS0tDQo";
const KEYS: [[&str; 5]; 5] = [
    [
        "c53b26909fdd112a1e9945b51558c7d2a83d4ec2f19e4122f0ae8da39bbabedf9e35a9a3715646059a1155cd19040ddc8786a35dd75220e95ed2751d98329020d62e17f5a8e680c0ac69ee5ba683d193703a215f7971bec8518657cae3156b13af0d597c444c837259b2fb393c663ed10e8e4a2b5fe3ab4e770399d773906a938e54cb706c0092dabed77583fe640a8ab5d70cff8e037218bc94190921899c9bcaf44d74cea4725e6c28acb73ebb01076fb53e0b97cab6d030e87fcdacd918fe5cac3e4f9884ae356a4dc1d0fefc9ab0fb93d7e0f14f6716de2a841c9def9089add24b814a9f815b3347ea328ee45570ee70f00575c338f2da76040313a11637",
        "010001",
        "615c4f2fc272aef7f34de72eba606e97cb4c2456b04e564a28b48a1fd30eaf0d953c5946e0fa5d2b83bffdf276605d7559037a1ea75d97f88bc1e965580dd1bf1beb7a115f34962746952e4058e5266e194ee0cd901639bf0a1b7eb81d3c23f4fe0b617aa9fe793ed80fb5db2db92d5626d0cfc5349b1f23e735445aaa66066d7cf90fe538884ad422f8e3b8832e3307a6c98da59ef5cf805b2beb0cfcb6c3767e1d8091a715ba9f3f39a9501a53356f0333ca69f7bea03db9011ac334a8510d1a478df7fcfd86600051b58ce7ed45e443c7b92f1c1245df579b1758369ae00e9b27fce7fba61de6fca3ca32dd7b743dc37640ace21d90b43234f7475815b975",
        "f5475696fa7b5be253675d237f914f86e18e64a689b83c04ceaa70fff5f37c311b8447c6736c37b89bbdee88e0466addffeea5f2b0dd79de399613752037d10724622e8a2a39b2108c07523c497ff015b4bc45964b5029dc13fee18652822f3ece21081d353d35f18bf3bf94e194ec84d3fe892c50bb15a67c0ad94c325804b3",
        "cdda2933ba7179027276e827c87bfe5c4367d3e7655e3800dc8584c08cc1cf33e90c7e750a6986a4234483b6976f5eab6d7b869972e3793355885230d285a8ab0ac092e708b7704fd0a19e8b4ae475b40f2356e7bea9bc1e71fbd1170053d5d92c4b549618009d787467ea32c20b3ca599a135e28d0ebb1cd5edb78a7f23926d",
    ],
    [
        "a16976925fb961c467a476034d0849832dc53f0bca0f85573b4209823738d4e269be3b1d9bc1b9877ea0e66d516f65f9bcd0aa814849cc66fe74b95a19c192ab88c3a24cad6f9fd41a44f244871d9645f1c60c7d70a597e91e3522398852cb1449b8643487f3fb8eed2749fd2109b896d79fab477b1f106895ab2db63feeffb79866c33c58a2d936cc0fb83f10078d9c115c92b5122267f02a73bbe3042281b3c0007643ab092b7909dd51ee84df3aff5f23b2ba5fcbffce58bd73bb1da1bd79f5eb08b42ad5b4eeca79015e053feaba5c297e5a8d6b45e5bb8e0306707f7c9ea1dd54cc478097c02e7082db01433460bd62b5a72fb908e0fb0e03b1ddb66a93",
        "010001",
        "24c98d091a40fd7bce6548b242e5bf1f63189fe0577a8718d4fc1d7fac874ad999610e4716bf25c230458a8ee2af016e542eb895837cb255cceb9c6ce10ee1972fb1eab510182f349f921427332636a01554de76de6c173dbdb13d6e205842498aedb804d2f173e564be7e19ef64304a4cb56acb7d4f9ca5416b449d535fecaeb62243b01dfa050de4ef8c47baa465985348348e9a5ca7667a3dc3ffa9a20068987aec1dcbeb47c43a2e860ba152354f2bdd889589bd12926edc4f9d446cfa0c9bf7c5746225bf85250745f4dbf2f6af43728211201539dd39357aaad4ca7f4f814026d174b83ddff95306b947719ad4b9d83dd7ce85f0abd74fb8ed40e50b65",
        "cfd5f327529fcea5e0bc4b7d8c4865a61229c35636cc9adf67cb88311027bd02e86ecd242ed4af364f6bddd4a51987b5609e9ddb3a28b4e7f4fcc4fd1e2f8e0f1f6796c1664a7bf0af490f0870b7e0423afa4fa1e332d2f5782113a3a4ad7b69d30175cf304e91d67b9f73cc03ab58ae602fa23bd1d994812b15dbe06a761a0f",
        "c6d1611b915e599683ef3bda5bf915259605eaa6a0effb2229af706bae130dcbe5f2d00adb860374683f6b948ab45a6c9a983c4836a7bc2150c21b06c531b76a645c161223ac3f3ddf315e93255a30f1632a68b3781ba38bd5b8f31df0a7cc31d3241834c2165311e98acbb69bfcc088b212d10e356fed24174f6ed5bf237b3d",
    ],
    [
        "e0da840bf6b9725f3a900ef1155f8c96fd549ea2927f9b0c0595939ec1b33938cb544049e394e62c557b830529c67554f6805f431e73b85d78b864b7726a5d0e0e3daf84ca78f097cc52c97d69edb72e4be1bc406d383ff6a24a64429048979fb67c9b538a91404e0ce544591adb7c26986aa0ff6cf9370835b8cafce0aefd999023c73136e166f7daa159b309490a34ad8d412a61fe6d4d8854cd8f39314e602596c510e0fbaa0d7d3dcc0030095113ab18b42bbd796cda470f7e17cb3ee2d709fb6bd2f44c5d5ceebac6429b667066ad6394387429e6f802fa18a123ed40ca2c47ff5f01e6faa3f744445f7beb8a5fd4698ad7242c739ae5f496aec975b131",
        "010001",
        "054c2d1e25ee20eb503a4b6eefe040b4195185c8d5c3c3fee51fe5c3a29ac58af89ef50976d8219feda9a8044f4a99c24e14aebf38b09d9b1946a1ff80ada567b8fb64bd4c2104fb713ffba21312e2c15a33c541f0e2978cfa9ffb829f13bb348f98ef6893bee8e338898ef211d2328d00ae2e72c29674526a0762995f9fcc452e726bf2ba4fefd7b07a990451c6e274d9a446dafb7152fa8681324f83cf89ef502363c026b0a32c096b2a23b95259e5d93611b7ba01e3a0566a5bb1c93fd693ed18f065cf1742a4568b5b6c2339a8d0626ec9fa5a72af074924bfc7f11bb96e94ddfbcd59985c9399fe4f90892cb649b582d887f52d41ecee42e9ffe633b34b",
        "ff17f7056dc3a9678c24212733c4c949b30471030f19b54ccaba8425726536d473f40e44a91899d5be28254ccff701482ed8724f7f24dfc9d3c18777ad9ff09b680a51296779df30e02aa869df21dad44b614aab80fde4c885655a1b0b32ca500deddb2336bd739d9338ec32ce2008a160bc4ab0a35b3a559fd6ec6972fb844b",
        "e1a70b585528ea538ff584416ce21a259bc75b1f5348e6a2a03a9ff3ae65d1a404617dc6719524a57ada7157798e146808f89df78442519db3e0b1ad0c489f480517a9794e158bfd9a50e5eb29153968b0a446d65f9b375d8b5f8de529aada4f5485280034e0c9a76556d3e989951a9a84338a0e0835d16781f521689c269af3",
    ],
    [
        "d395083a118aa4b46e0b070ac4bfe3549c6ac65cf73d983aa93e03f6e2185ae3be2b387f55216efcc34ee4fd28b975255ab9cb904055f3b22eb2b590d228b9b66f579784826c3dc6b756f081d1fae9dc4a622551833183321d3d6852981fda23cd457c1e1e1a9beb7d79494826ae7406f18c0d3cec5b5072dd98ee71d7c766da3f24730b377f3a4900f62230094c27c22609307eca54a2429d679dd5e6e04f65b42c8edae5fa0150c919b183cf6732e87e78b93cbc2110645eaf5208293d7800a49d260bec4588303348933994a9dbdfb07d0f15656dd4944a1b706fabfc0f4f845f57f0778bd44bfa2e1c67f7ecc72eb3122c6f4d603910dfd7f399901b25e5",
        "010001",
        "448de4c0ffdf06b7c971fc41a277341ebda1a10d0d34e1669c60922343a5b589561c25eda7f531c3673ae05a20805ab3143edff4a8cbd0ae9a8fdfe1811e9df1bd08c9f8aed3887ea2f7e1ec864f40c7d6380fb466083c6497f1c62400d34d384d71e6a1d18a389be8274cb5ba86cae4570e5459b9916ab31516d0a7854d4006ff1dc9df33e1f83a015a4e6c80917f15a61c3df7a66901835fc1d0c54f596208fa51e671a458351370a5c585b11b2fbb3636f698c1964e4e19e0c1ab64574159c5b442bc5dbc9ced775aaf47e11f902dd765c527dfd0bb8099b53f6bc5f813185fb6fef9db9f09b8d189e52167e864afcb4cb32890feabc2d47193ed10418fbf",
        "e9d71fdbd9010e7fbd1383941dccb84e37a73c57207339ce730fdda8a02694d47e789988ca345751e35ab75ceb35cc5a8455e0b63a672af5c8761eb8cdc5aa582c995e3809eea6553219c2d3a8e05bd51875196a4fbb1e396d303190c9e05fa2392558c5bf3998df57ac8aeeb8ba6a6d560bc50b319f4ce4c374bff68ba3137f",
        "e7a1eedcc3ef4bba7d61c1db4dbc240924e4fce40509f88a6de6c7eeec055e5c166096c10e15a3335047f10fef7c183786754620e8ec6ae5bd165280b21c930c58488ab70bffa66ff07105ee6e3cf7ac39cb90b1591e8182972a6480b2be1700926afd4b40659a0be3b39c2cf370af151d94c728d709d5507ca91f068deda89b",
    ],
    [
        "d7ff82f6af6d2ae6ad09fbd0119c4b2f30a17720ad7f3330f26b7109c509b6ddc628b69c95d53400fa36642e9f71bac86b982b2bd8f4ad841b975cbc225fe11d5208b22e7f6a576f3b212fb39b70f6d2de1a9f119a87134272d4dfb92c2482c258f2eda8fa7d3dd9f8dd0ecbb47bed38a634e97c2d832263e1cd241f9626c0f6506b2b8fdefc95a135f4470487457d0dc88dab98f21929973a58c218a80a43632bc9bdc5feaee80ae862b3d425e6bd81cd41ec81456f9d01f3712b72a18f0f8a53ee6ba9f40280caf697d0847787c9f78b760474217f2924755080854e5dbf32ef5ffd1ae2a2b069b8cb12b8e883bd31ab476bfb3b3cc7ae74a5fa7511a78ded",
        "010001",
        "1ee51f3865b339b5b0fe82942a50aeb85b3e5d29c167364d43ff7635ad874c2ec08f463f7377016f3a5ad94d89e4dc909a4333b99bd8b390f7d9589c58565a7eb52325495d543a99605dc8d2e9e2e88b14d5bdf6e8a17571c5b70921155d4b8ebce652741f1016eebc97f1ebd52efca963aca1d0ef39988bacda88d633c5eb478cc403198a3f60912505eecc3fcae4b77cf395105433809948c2c862d3d3924f5f726ea3ad5dd43c5c16609bc509167cc86587dcb0ec679ff852f0f2cf9d6c5110f934fb0e16ff557f749915f63fe66404d80b1306409f3fc38200aef1b2a0a30bbea4d893b875f439547f31981ac7efd20b8fc1eea4cd90668a9426d6887e01",
        "f0533988bad7143cab3eacf5861d4372a879bc9ea60d1468f2bd69123b565c8f1079a99a93a79579583dd307c2fe8f168ef2fa4728916ca59b32c6bafaafe6c4b1f9200271b7407c2ecd94c035bd610a063131f7d87c0727e6ce177718c316ed8388413ea79e337b7a3167772013ea27a9ad8325c96a94646b10c36eb9c2d4c1",
        "e616179040cbe863e5c8e32252d6105baaba07ab0296cb267c95e8bd1eb2187399ece3564b40f4e43f6595339258fba06b166886aad90a2bf41a177023d57e58cbc9fbd93cdf1ef9fd6c620a141404de238dafb7f29d4819a5e48e47a888d7a28958747e8b0f95a788430757a6581e57acd961e236ebeb9893b01f8df1aa282d",
    ],
];

fn unhex(text: &str) -> Vec<u8> {
    let digits: Vec<u8> = text.bytes().map(|c| (c as char).to_digit(16).unwrap() as u8).collect();
    digits.chunks(2).map(|pair| pair[0] * 16 + pair[1]).collect()
}

#[test]
fn canonical_numbers_have_no_leading_zero() {
    assert!(is_canonical(&vec![1]));
    assert!(is_canonical(&vec![1, 0, 1]));
    assert!(is_canonical(&vec![255, 0]));
    assert!(!is_canonical(&vec![]));
    assert!(!is_canonical(&vec![0]));
    assert!(!is_canonical(&vec![0, 1]));
}

#[test]
fn bytes_are_copied() {
    assert_eq!(clone_bytes(&vec![1, 2, 3]), vec![1, 2, 3]);
    assert_eq!(clone_bytes(&vec![]), Vec::<u8>::new());
}

#[test]
fn public_key_keeps_its_numbers() {
    let key = PublicKey::from_components(vec![0xc5, 0x3b], vec![1, 0, 1]).unwrap();
    assert_eq!(key.modulus(), &vec![0xc5, 0x3b]);
    assert_eq!(key.exponent(), &vec![1, 0, 1]);
    let copy = key.clone();
    assert_eq!(copy.modulus(), key.modulus());
    assert_eq!(copy.exponent(), key.exponent());
}

#[test]
fn public_key_refuses_numbers_that_are_not_canonical() {
    assert!(PublicKey::from_components(vec![], vec![1, 0, 1]).is_none());
    assert!(PublicKey::from_components(vec![0, 5], vec![1, 0, 1]).is_none());
    assert!(PublicKey::from_components(vec![5], vec![]).is_none());
    assert!(PublicKey::from_components(vec![5], vec![0, 3]).is_none());
    assert!(PublicKey::from_components(vec![5], vec![3]).is_some());
}

#[test]
fn private_key_gives_its_public_half() {
    let key = PrivateKey::from_components(
        unhex(KEYS[0][0]),
        unhex(KEYS[0][1]),
        unhex(KEYS[0][2]),
        unhex(KEYS[0][3]),
        unhex(KEYS[0][4]),
    )
    .unwrap();
    let public = key.public_key();
    assert_eq!(public.modulus(), &unhex(KEYS[0][0]));
    assert_eq!(public.exponent(), &vec![1, 0, 1]);
    assert_eq!(public.modulus().len(), 256);
}

#[test]
fn private_key_refuses_a_bad_shape() {
    let n = unhex(KEYS[0][0]);
    let e = unhex(KEYS[0][1]);
    let d = unhex(KEYS[0][2]);
    let p = unhex(KEYS[0][3]);
    let q = unhex(KEYS[0][4]);
    let mut padded_p = vec![0u8];
    padded_p.extend_from_slice(&p);
    assert!(PrivateKey::from_components(n.clone(), e.clone(), d.clone(), padded_p, q.clone()).is_none());
    assert!(PrivateKey::from_components(n.clone(), e.clone(), d.clone(), p[1..].to_vec(), q.clone()).is_none());
    assert!(PrivateKey::from_components(n.clone(), e.clone(), vec![], p.clone(), q.clone()).is_none());
    assert!(PrivateKey::from_components(vec![0], e.clone(), d.clone(), p.clone(), q.clone()).is_none());
    assert!(PrivateKey::from_components(n.clone(), vec![0, 1], d.clone(), p.clone(), q.clone()).is_none());
    assert!(PrivateKey::from_components(n.clone(), e.clone(), d.clone(), vec![1], vec![3]).is_none());
    assert!(PrivateKey::from_components(n.clone(), e.clone(), d.clone(), vec![3], vec![1]).is_none());
    assert!(PrivateKey::from_components(vec![15], vec![3], vec![3], vec![3], vec![5]).is_some());
    assert!(PrivateKey::from_components(n, e, d, p, q).is_some());
}

#[test]
fn generated_key_has_the_size_asked_for() {
    let key = PrivateKey::generate(1024).unwrap();
    assert_eq!(key.public_key().modulus().len(), 128);
    assert_eq!(key.public_key().exponent(), &vec![1, 0, 1]);
    assert!(key.public_key().modulus()[0] >= 0x80);
    let key = PrivateKey::generate(516).unwrap();
    assert_eq!(key.public_key().modulus().len(), 65);
    assert!(key.public_key().modulus()[0] >= 0x08);
}

#[test]
fn the_numbers_of_a_generated_key_fit_together() {
    let key = PrivateKey::generate(1024).unwrap();
    let number = |bytes: &Vec<u8>| rsa::BigUint::from_bytes_be(bytes);
    let one = rsa::BigUint::from(1u8);
    let n = number(key.public_key().modulus());
    let e = number(key.public_key().exponent());
    let d = number(key.private_exponent());
    let (p, q) = key.factors();
    assert_eq!(p.len(), 64);
    assert_eq!(q.len(), 64);
    let (p, q) = (number(p), number(q));
    assert_ne!(p, q);
    assert_eq!(&p * &q, n);
    assert_eq!((&d * &e) % (&p - &one), one);
    assert_eq!((&d * &e) % (&q - &one), one);
}

#[test]
fn a_key_gives_its_numbers_back() {
    let key = PrivateKey::from_components(
        unhex(KEYS[0][0]),
        unhex(KEYS[0][1]),
        unhex(KEYS[0][2]),
        unhex(KEYS[0][3]),
        unhex(KEYS[0][4]),
    )
    .unwrap();
    assert_eq!(key.private_exponent(), &unhex(KEYS[0][2]));
    assert_eq!(key.factors(), (&unhex(KEYS[0][3]), &unhex(KEYS[0][4])));
}

#[test]
fn generated_keys_differ() {
    let first = PrivateKey::generate(1024).unwrap();
    let second = PrivateKey::generate(1024).unwrap();
    assert_ne!(first.public_key().modulus(), second.public_key().modulus());
}

#[test]
fn key_sizes_out_of_range_are_refused() {
    assert_eq!(PrivateKey::generate(0).err(), Some(Error::CryptoError));
    assert_eq!(PrivateKey::generate(63).err(), Some(Error::CryptoError));
    assert_eq!(PrivateKey::generate(4097).err(), Some(Error::CryptoError));
    assert!(PrivateKey::generate(64).is_ok());
}

#[test]
fn key_text_is_base64_of_the_pem() {
    let key = PublicKey::from_components(unhex(KEYS[0][0]), unhex(KEYS[0][1])).unwrap();
    assert_eq!(rsa_pub_key_to_b64(&key), Some(KEY_TEXT.to_string()));
}

#[test]
fn key_text_reads_back() {
    let key = b64_to_rsa_pub_key(KEY_TEXT).unwrap();
    assert_eq!(key.modulus(), &unhex(KEYS[0][0]));
    assert_eq!(key.exponent(), &unhex(KEYS[0][1]));
}

#[test]
fn encoding_then_decoding_gives_the_key_back() {
    let key = PublicKey::from_components(unhex(KEYS[1][0]), unhex(KEYS[1][1])).unwrap();
    let text = rsa_pub_key_to_b64(&key).unwrap();
    assert!(!text.ends_with('='));
    assert!(text.starts_with("LS0tLS1CRUdJTiBSU0EgUFVCTElDIEtFWS0tLS0tDQ"));
    let back = b64_to_rsa_pub_key(&text).unwrap();
    assert_eq!(back.modulus(), key.modulus());
    assert_eq!(back.exponent(), key.exponent());
}

#[test]
fn a_key_the_encoder_refuses_has_no_text() {
    let key = PublicKey::from_components(unhex(KEYS[0][0]), vec![1]).unwrap();
    assert_eq!(rsa_pub_key_to_b64(&key), None);
}

#[test]
fn texts_that_are_no_key_are_refused() {
    assert!(b64_to_rsa_pub_key("").is_none());
    assert!(b64_to_rsa_pub_key("not base64 at all!").is_none());
    assert!(b64_to_rsa_pub_key("aGVsbG8gd29ybGR+").is_none());
    assert!(b64_to_rsa_pub_key("/w").is_none());
    let mut padded = KEY_TEXT.to_string();
    padded.push('=');
    assert!(b64_to_rsa_pub_key(&padded).is_none());
    assert!(b64_to_rsa_pub_key(&KEY_TEXT[..KEY_TEXT.len() - 8]).is_none());
}
