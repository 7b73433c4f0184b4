use fgtw::fleet::{bindreq_signing_bytes, MembershipBlob};
use fgtw::keys::Keypair;
use fgtw::pq::{epoch_bundle, FleetSigner, SigningBundle};
use fgtw_fleet::chain::Chain;
use fgtw_fleet::eggs::{
    device_eggs, epoch_eggs, public_keys, signing_bundle, verify_eggs, Egg, KeyBundle, EPOCH_TIER, FALCON512, MASK_BASE, SPHINCS_PLUS,
};
use fgtw_fleet::handshake::{encode_hs_payload, hs_digest, parse_hs_payload};
use fgtw_fleet::keys::{device_keypair, DeviceKey};

const MASK_ALL: u16 = 7;
const WITHOUT_SPHINCS: u16 = 3;

fn unhex(text: &str) -> Vec<u8> {
    (0..text.len() / 2).map(|i| u8::from_str_radix(&text[2 * i..2 * i + 2], 16).unwrap()).collect()
}

/// A machine's keys. Its SPHINCS+ signature is recorded, because making one takes over a million
/// hashes; the other schemes sign on the spot.
struct Machine<'a> {
    keys: &'a SigningBundle,
    sphincs: &'a str,
}

impl FleetSigner for Machine<'_> {
    fn keypair(&self) -> &Keypair {
        self.keys.keypair()
    }

    fn eggs(&self, msg: &[u8], schemes: u16) -> Vec<fgtw::fleet::Egg> {
        let mut eggs = self.keys.eggs(msg, schemes & WITHOUT_SPHINCS);
        if schemes & !WITHOUT_SPHINCS != 0 {
            eggs.push(fgtw::fleet::Egg { scheme: SPHINCS_PLUS, sig: unhex(self.sphincs) });
        }
        eggs
    }

    fn bundle(&self) -> Option<fgtw::pq::KeyBundle> {
        self.keys.bundle()
    }
}

/// A device's eggs for a handshake, with the recorded SPHINCS+ signature where `mask` asks for it.
fn handshake_eggs(keys: &SigningBundle, key: &DeviceKey, digest: &[u8; 32], mask: u16) -> Vec<Egg> {
    let mut eggs = device_eggs(Some(keys), key, digest, mask & WITHOUT_SPHINCS);
    if mask & !WITHOUT_SPHINCS != 0 {
        eggs.push(Egg { scheme: SPHINCS_PLUS, sig: unhex(HANDSHAKE) });
    }
    eggs
}

#[test]
fn three_egg_handshake_verifies_against_the_declared_bundle() {
    let host_keys = signing_bundle(Some(b"host-machine")).unwrap();
    let guest_keys = signing_bundle(Some(b"guest-machine")).unwrap();
    let host = Machine { keys: &host_keys, sphincs: DECLARE };
    let guest = Machine { keys: &guest_keys, sphincs: CONSENT };
    let hp = [0xAB; 32];
    let seed = [0x11; 32];
    let mut blob = MembershipBlob::genesis(&host, hp, &seed, 100);
    let gpk = guest.keypair().public.to_bytes();
    let msg = bindreq_signing_bytes(&hp, &gpk, 190);
    blob.add_declared(&host, gpk, 200, 190, guest.eggs(&msg, MASK_ALL), guest_keys.public());
    blob.declare(&host, 300);
    let chain = Chain::from_bytes(&blob.to_vsf_bytes().unwrap()).unwrap();
    let fold = chain.fold.as_ref().unwrap();
    let floor = fold.floor;
    assert_eq!(floor, MASK_ALL);
    assert!(fold.members.contains(&gpk));

    let guest_key = device_keypair(Some(b"guest-machine")).unwrap();
    assert_eq!(guest_key.public, gpk);
    let box_pk = [3u8; 32];
    let host_pk = host.keypair().public.to_bytes();
    let digest = hs_digest(&hp, &box_pk, &host_pk);
    let bundle = chain.declared_bundle(&gpk).unwrap();
    assert_eq!(bundle, public_keys(&guest_keys));

    // Full eggs verify at the floor; the epoch's eggs ride beside them.
    let fleet_key = [0x77u8; 32];
    let full = handshake_eggs(&guest_keys, &guest_key, &digest, chain.declared_mask(&gpk));
    let epoch = epoch_bundle(&fleet_key);
    let ee: Vec<Egg> =
        epoch.eggs(&digest, EPOCH_TIER).into_iter().map(|e| Egg { scheme: e.scheme, sig: e.sig }).collect();
    let parsed = parse_hs_payload(&encode_hs_payload(&hp, &gpk, &full, Some(&ee)).unwrap()).unwrap();
    assert!(verify_eggs(&parsed.eggs, &bundle, &digest, floor));
    assert_eq!(parsed.device, gpk);
    // The epoch's eggs verify under this epoch's keys, and no other's.
    let header_pub = KeyBundle { bytes: epoch.public().to_bytes() };
    assert!(verify_eggs(&parsed.epoch_eggs.unwrap(), &header_pub, &digest, EPOCH_TIER));
    let stale = epoch_eggs(&[0x66u8; 32], &digest);
    assert!(!verify_eggs(&stale, &header_pub, &digest, EPOCH_TIER), "a previous epoch's key proves nothing");
    // Ed25519 alone falls short of the floor.
    let short = device_eggs(None, &guest_key, &digest, MASK_BASE);
    assert!(!verify_eggs(&short, &bundle, &digest, floor));
    // A changed Falcon egg is refused.
    let mut bad: Vec<Egg> = full;
    bad.iter_mut().find(|e| e.scheme == FALCON512).unwrap().sig[5] ^= 1;
    assert!(!verify_eggs(&bad, &bundle, &digest, floor));
}

/// What the guest signs with SPHINCS+ to join the fleet.
const CONSENT: &str = "\
    b165ff07aa824988ee6c82cdca5e4c2968bd666559b11b2843bfa65e0926987b7d38b371c8234b19b68936f4d10bbc171986f77d082f1854\
    77773b36351632cd886f30112daaaa02ea9d3ae3847d18c11f59f4b1d158d01f78eea0e0c119f06a62034412803c6980962cefc41020c74e\
    bf363e78586de18cdc3eec72c5640d6b792d748a6a57a250a4bb31543f961aca7142ea8ee7baf49caee222deda179a1d1d2f788da189be14\
    c6dc7be29fd952c2e3c037c617a4852f1e540f9bb70f96345da7597e7d7f7be85fe396c685a3fa683c12d0a3387218a801fc38fa58336b24\
    08c17299af0f18dafb5bb2b2e4db8bdaffe6167d686acb4710b460b813791690e24987965f00589bdda82e48a01a6b812fa14b89a1b64f57\
    570dec98a56dcf18cf7b21952fd4765f53077581c0f1412c02fb0fb5a74b4148c7c52d91365654ee985a6d792d16c36238555a414bfc767f\
    d5c480adc12b7920569d076559e20111a7f3b9ca0a13faca05d8394f023c5e75655ad6ffd7303c208e51fbeaaf2c6515c5b50a9c285a7f05\
    d981683596f880c0b057e7e7d2e6a3706260f6db61186c762c6386053233e9ead4c4f9f428cdd2b99de1055ce2ed96416e1d33c423110a48\
    b9fdcfc9d3e9ccfeaed19ec901e47fcc7b4f6fdddf62ad22c44951922799e884ea4f7206b77462095e1f52468406e5d6675251f89749540f\
    c87b2cc732eb575438a8bcebb58673ba241ec8c7bb55af22ad3c05876dfc53fe390d34f61af5d2ad0b680549e653110fb9b7dee8dce6957b\
    015a59b6882cf15c4e8223f9b936a23ec9aafa9384071ebbb1f6083ebc91058e61e1dca16222e55d6c9d530db640ce58d17b8128a2c03bfb\
    0c9c0764ebc49e9c0a33c4c0ca1045ca986f2d89dc47a416d760c6b95bca118e0bcfad4e960d6382a66b05790a7eb6bea17eb81ce12da310\
    d86d7b7b837c8eafc358668623f6eeaaf30b8282eef2ccdaf000a125fca5586ea4b0dfc3b1d5fa7e67f766a3cb1b4d1cd25b1748aa12037a\
    d2aa5e1f14ad908c0a10419d63f51f27a7f52f14b22ab09ab107b15ce416cd8823f5a04881be40e539cb059b82a412c57d31c8036b9eccdd\
    b8ca1f5ee4d11f0bc14276c1ac7e7af8ce6e829f04e344c23652f5864030fc1cf707c4967dd22ddbd49bc8c469204f0356309d7d69cf42ba\
    05ff6a3f8ceb30928869e8d6db9b10550364500dc4f564e1e1abec20f6b651fdb75994879b103f6f7ef4d17f6937811d47c5bc73f50e91eb\
    f8cf728d8b854f7863f60951957ae6543ac9048ad6fefca557e14ca03a737d59d8e8e163824e9bc61cb5aa63e7d3a9a399997d2cd45e7d69\
    6654b3dfb02c5dfa5a266134e7d187971bec6b09acb10992e79b039a3015f15fe6ec347d59c58fa0cbb5d1f38fa44203ade13294cc5c1576\
    3335e1fc4188a24ce2dd39dec762fbd9e424070244676c42639d0ba911e5f28ed82c10878b40902d919345204dcca194dcbbe8e469e682c6\
    8eaab5f4621918ea40f716d047c11535590396c9f8cdbe740bd1d154874021b5294072fb9dac1aaece66f61f78af79e851c768916cb8e444\
    3303ec5e1eff080c2bb8e0d67a59490c987e0fcff9f371e1e94c1a1dcaac008e7e319465305636cf6c8b23884f5c471bf101dea19363d4e8\
    abec2253185f12e902acd5b6f65e4abfb718739597996ccfff2df8e36d885c94b609e4021cfeb8871affee6adac854d27063e4df969d7dae\
    89182d25b0991878056159a50543575891e42f84de6f68fb2a990afaa25e36aeb0511a6aac6c5c933f27d74e4ad5bf7aa80311763e95fecd\
    a70d3de347b83744c38ddbd25b3a562b0f8852429e8907bb2f40268832b2d236c95f8da53d830726b750e1adbd5ee1f9ca476310637d20f3\
    9582039ab1ddde419a2f696fb3e16dee1fb174dd8bdb412924195a3ed6f7410076508290bfddc8433f0e387d26f95a6ac1556e178607df25\
    b6c0b590f543b4d00a3ec3682c871dc2d2c67d202ea07e47d24f6140265f6db7c12afc24a487117266dafacb88c3c3635e8ab3c2d6046798\
    1096769217d09300940ab1c5fc747ed52de663532dbd8243eb39a8e666cb0b4619186f5dd704d7678189d0cd53d7a0d4d90e9d1c461dbf3b\
    d401e2f8e824767aeb759db546fb73931a83a8cd0826d7cff2375e1fad8185f89c9b58bd84fc0d5b3d2e82bdeb1bf740baeab3a9e0506442\
    221bca1982e62ccfaf891bd0c171b8c88b42ef5e5ff7de6c5682564393a55f930d7bc8cd5145cf294f479c123a080814bfe3858b063646ca\
    92b7a5b7189d30528dcfccccd0bc64e7b6026eeab41163e312bc342616269ded86ad6d5a1c526f863d0e528f70111f04b28835a1cf015c69\
    96547e6f5ebdb6bc7b80916cb39507c7f4de71a2257ec1e222d234e3a7be39c989aeeff3a2bf6194354ff471c05457c986a25feffbaa251f\
    308521cfaaeb5364654b2015be922974be2c83b7b704dbc22400074e0cb9bd8d31709422cfd6fa522d8560e1398ddcc84bbe274ff2aeeade\
    4c2c93283b1d55a43848d27e105d4ac74dbf875de258b7281e0fe18ea6cc555958f67ff2845680cf4d141eeffff3f57ead2649c5bb5c3ffb\
    1a372022b26dfbd0e413471e774bea7a1173a96f5b5a9816ffa2864029c346d2db7c71efa8a443bca52a841385ba9da96bdb24f28fc97311\
    9d329455753d9c71087b8422bf46df6545cbd1c45bf890e704696c6d1f31ac75a094310e561233e624b35db4b0c90b0359a4f3c6c56dfa97\
    fab91cd01afd0596fee279a71a96aee7c0414653d205f95a801cd2d0cdd5dc9c049144118fdf3874b26df8ca16740b2a83ef179e2771306a\
    5a919e5b8c2a6a681e29854307818d88936a1938fb9e96e54f338eadcae13851317627a0969cd2cfca18f6a9341ade23db95e72093c3892c\
    8ca574811980b5fbce0ccc1b3cb801428dbd06efce3d518fff2f1c148ee1d54ba3ece7b345e7d9ba65ab72bfbf903db26df6cba41fcaa59c\
    9c6169d2a49a84a8da006bf07543c7c39bf404c89b30349633c059d409b0c21bc5d84ccc32f23da503a68c79a0b367b320f0d511cce2c138\
    c89c1c33ac1e87b907886093092d03f6d376c290c666bb685522c0e3ad6ba74be151ebaba891d76207b5269e057c2dcd75f45b0a5b541fc1\
    bb4647d46aa0a284022fbbfbab185ec84b19c3d75ec75688dff53abc7604be5475a84be8e36c1cd04a76fa2c402a99f36c53ff450c42249c\
    9a2bce7f0ef468095b0a866c859ee74ccff58dbc9add4e64d0a1c241eced5b8a1bfadec280e9fbf6580a763ac8330ca7c7a4ec2de923a789\
    66131ebda26240af9113131c29db680c3a8626d7f13dc4ec04048e3108be59542caf50d860f69389aa92758a190d89ab7ae02d351827f0e8\
    b38316ece13c10ad10addfa8ed897448bc10c44c8aa79f3c85175074524e947b999d98ecad459d93dd298b2a6151208459b5934522dc27c7\
    a73716e87ee1a03299d16b7c198d2a0f642954480357e5186a7f2173751c7c7a11802ca2fc8366929ecd6e659a5c72b06faa9b14a6b70a68\
    ae0e8fcf40be0130adb762ec1724962a43ef643d94727f118ef648420d272a29d611ee55f00ae2b83293cb26df3dbfe5c7cdd2bc5bfcf464\
    2438948b01ff99f027a0d3966ff4714293e5c5f36bf741e42b69c001618ab2be1202db5d74eb0c3228c4350e03d6961c3f55b7e53060d50f\
    dd3ad8ae5e807c4628bd158d704ab42c43186fb1ccaf4575951bd2d434577df0c57a761c52cd5cac161333c5419ea043296544712535d1ee\
    7c58f1225bc188c3f0734dfad525498024646fab206df4f69640bdf7ad8e3d48e046f9d9d85f3c5f4f8ba8dbc43a9280cbd8c6ac6e507d81\
    2b7fd48e5ac3a2a4f94613ae6fa0f273cdfd29eeb57856d5373d0d1059ee6b659179853f16e3c0ce1e48e6817627eb3e4d51611e11806922\
    db1b90b616d728ccbab40b3f370c28bbc2b3b824f9de691fd85d8ad691ae268d443ded92a8857c15b76f3fe93937e7b7a65ecf0f19313869\
    338b8c81b84a85e3ef631c82be950d4fd4a199fd674b1427c6aafccb3692bb46c4ded5fdf59bbf0f830f80fb012d201e7797ac0626681d15\
    6254ef7c7547d2c494663e78639dbab6345f58e942fb9b6fa86dea2c4330a96b03b7b0b45e369f2ded1fb0857d4cb58c98d82d56073aa726\
    a3eb22134554605deaaad620bff6be49a57a010fb481f2561c1e1b4f0978ea8b80f910e62087c70c585b50c8cdbf5a025ea2ef59290d5afd\
    c1722245b71ab239e9179fa84e4edae7405b13fff3527a4f4c289668d923b5c0652fc0f2e738865c9a927dc3b8fba08cedbdd9b341ade4f2\
    f4dcdcb76d8c5230cd9ae843eea6ba3439021fb723640e4d027bf0eee7d617bed056f5a28082f07b7eb0b5ecf6cad8e14aaf8c358fc20aef\
    55e77e53d373da857d9334b2b1c3e92e53160402f36839eecf241024c990cc21ddf176f2edb5d79f47171e519690762db39d7c1952222879\
    fd8f74583c3058bcf3f4a3229953804517bece255b4baf689b6133adefe79c89a92ff1d0d9c8f6686bc9d43d67a8f78df78d38f920b57681\
    52179f568707c65001978d53e96579d0250091dee74ba0a8e08429117d4d13ad6059a631b308cf6eb5682ea10f53f65f2e23d89f0a84dda8\
    f002472e21c27c8bfefe2d821675e61f009bdb1a27ef91c7f0e0e9804ed11a0bc6bda43567a9ccd2db9d1cbe684733e9e960db4da4e3cde8\
    fff87ee52f2f32e92aee3baf131832082d7818d845278aab8d77d64da4c95402af7a89c59c63d8b3dfca4c85a313b091ed124569c9b41bb9\
    0ed59130ec219463d71221217a6f872a32ead354b36e3eaad7d55ccd4320e03cc383c9f55a7b359d87e0c70dbd05c650ef95f605e95df3b7\
    7db0e4050dbd28d53adb254f2c21684c4c495db17ab8fcb8a8f77b1f883d9b71dd2915a79e35674cd701bef141b5d6770c4aad3099d148d7\
    635e5c1cb06fb3f4ddaf2d465c6a32a93da6e39c49430b09949884b3a9375d90be15ac8b0c73643471fe479c483905c1e002d79e80f4d8fc\
    b074909f5fb4ce89dbe9fa7990cc7ff3a6c0bba270f5fe0ff4fa3f1a9f8c92f8bc057402e5c6bb1935399dd522839fdf8fbbdba96484c28e\
    9a78147562d16de3a70859c1c3e70fbf50c051cc7b3d3cfc1b72f4894f26526a9fea6abe99a11108cd3e7e840229ffadbd29acc0bf3437f6\
    dddcede8c09b4ed869b34ddf1d7b7f989815c503beec0174e708bee6c62013d00f510c5cb5009b7010102efaf8ad5f335d560d076969b76a\
    68e7ac03e52be937818c9a56592c4a4d6d2ad8b622a2284afa9c2a623d7a7e9d9495c951ec65be8c7791e9b6ea42413512ffc8fde9a71f9c\
    5c32f3e1e981b29688c03c110572f77e83906a0f81e9305eb5ed5c0fd21bce25a28f90cd64b197d686d796036801d2f01fcbce190aa627f2\
    84f638b32685c40802b794ec38156a91695c9395ab432d378b5190b5ec753519e2821871ebdbc46792969169f6fbe36f0e2d8b4348a89410\
    7f04982886da0a3a4ef3f7491f06840c9273b35531452305b4949e8525b7d86b277da74fadb5f4d8fec14b89af94196c94024d6b16c2b5e4\
    596b59ee31b9c2882de4f68c6dd979a63bf0d490e9235a5f95c92fef951e08c56661a6738355ec4d95ed8ffeebb97aadfc254b5904b35608\
    784a58278c06013d112445382e1bef794b4993887bb6935fd6265d412ea6df58637791a97f3dba769a700e29b4921ce5d80781a729afb8e2\
    b918e1cac28093df57c77ab9cebf68ce30e620b9e8fa89c654028bb3779030c8a0e53c3a04274f97ada2da607f698adab9753ba5ff43a798\
    e697deb6e88b9eaf54e97e4194b09b0edf24d3a09304e5631b4ec06c3696df7988e92d15bc090e8b9e5d1c966dc4f1323bc243715340d34c\
    cf2a33ec0417137e0d6d25a910aad3c853957aa8c7126643c68654f019a1a120df8e769417cb7a3e161c6a192574102e5bfe0de88597f821\
    147e976dcb51e8fe74653fd20108e7fba22a97fe3ca3faf437978e94bed76d78f38f5e62174d7a5eb2511d84358533cf5032df48823b20a2\
    ee5271933db4cce208f3fd7422f47d353027004bd718d1ded70948bed285e21a6e93469edf688fb978cfdc3582b59e76d7590c5fbd2f7dc4\
    e2af41a011c45e58f7d56908ff663dc1dcb9c7dc8b21ef8a05e3090685e471b8ecbd8fd2064840c18c5c5957744a32afaca5e9654e86a120\
    cc0bd6231c9d602eb9eedd67a50b8d53ed98481223b57724886cddfe23d0122de1dcf2fcac0381c7601d6b5b85a9c5fa89f34c5ca9cced72\
    a1ee47646969117bbd59bb04cc107ce07df2a1e5dda2ae5d950dd0b5611e82af239f5bb24940819f2914413390b4201d215029b03ede3856\
    da9ff74153c5c1fd15812f0bf1d5be0c30de847be3a9a68fbfcb0020b086d1458c371965c4937e3ed3cb54cb0dd8585d1e1c3b9f5520e277\
    b5a81a337b8b6701197ee0bfe8f131b2ad059d4f8cc7f49d0745beda6d2d294f61a97cd4e4195d9c21a8ed58d412a4fe9926ad7e5221e535\
    246da00e04b09634b73591c32e7b9a397128465fd0cf35074689ac10325f79dab21741600a1dbd844ccd33139db60a4bc37fb2f977dfa0c5\
    e74c0ee590ac5b3a643130ab660f50db98adc46f10e85f36ae071313e3f9bff7a82af7b2ca7223a96e2c51b8d15ed739242b36876ace0278\
    a02113864726a00f3463aac4b9270763ac4223c4f2d9ecda577be2a42d846a37ed1865bfc0fad7085c510d74414a284195d0f5a09b117a75\
    9ed6990ef75f79166da85ed8871363d2c34f886eaf0f95c0b394efc22529e31e09da8c5e0507d3f222b9b13acc9d59323612c6067f5de04d\
    d0d77d3dcadc6388220d968758b102a67e4fdc138dae6c98a2ac114491682913bd0e9fec739f42c51c62b47987e7a5f0cdf43100b6388486\
    47d54c00ae78a094e44c4e55705e8088210503ac83f757b88692eb27c87e52bf6f29551089dbcd08ed32c8556be561ecd0a9f5a6abe02fe9\
    639cf8939c7dcd00678bc22a6364881f006c9926f4186aa7f14d9c244c5b1441322b39129f8b539f4f0e8aae2cacc3d885d275a8cb5eb736\
    8b8aff7d1589808a4277115fbd03f643d4dc95b3d7968c67c32d6e347a8ddff94280ece69538be71662ba82228ffe68f461e4afe58dc37ef\
    128a4288e7de2046068d58fc3db42259f00202a485dfde154d59b9e49246419661484f75b8bbbc2882d9ca24a98e9d05d5a08a65459852c6\
    579874228a555b6d4a763cb865d454163ff9fa95729db748cb8302a7e0e09c936b0f821046e0cd0146f59e4206bdf156cb9009f896fdce4f\
    5f573d9fd8dec21b567a282bf7627715e04659b7b98b5c9c2ed33bcacb24675c1c54edadf800e04e1015270748c5b6ad742d869bc5e67d1d\
    2f03182d7413bf11094537717ece8c03eb2159d2f35ea7022f7c6e8d5bbd838ab44af987710690eb5d5b0fb88d107604ebf493cf96ab7a78\
    9dfcef4d58b7439c95f9fbe0c881af33fa9270f1576d3e7383c7428f34fa63c786cfe6e01d985eedae0eefdcdd6802385daba07f559ccc36\
    9ec9d1a3c85e930b8fac989d6dfb95c3b44717f9e2b5f90c77f540d4d6bb8a56ca2fee966822f7d00afddde433ce72793ed2799b307cb983\
    b3f7e511e76ae3ff1836e4f8c5a6d2d205c8d3cf85f6a0779c26b6a43b14f1e5a7a0fa536fb28f0c3971a7ba6d777139fa6ef372287bba71\
    c87009a942630a375ab4adcccd99189577e575dde6dedb093985b5bdcba549a2b6944bdc51a1880791dbf6e0c9671349437d6c8666dea326\
    b7b6aca76eb9a3ce0fdf9e043d177586c391cec897dcf2e184fbc7f3d2ef2e39d6bc43a748cb20bef2291e15babe284a310d2a97e41eabb9\
    ce431e80f392296ac10a1aef847b04489310fbe6d373138ac8ffd5aa3f23777df3cb6e3e61c3c456e49621c67cb35a29a30dc7d4e74991b5\
    60eb7f1341a1def132584bc065d1b69d1473d6ae52c8d447da6ae8535f5b36f558bcd37fbb0ecf0bcdeb336e621932cc9d887be35837ff48\
    3bc538c99f26aa5401b612543af3809a79a1b4a9121561cba1ed58fa270f534f6fdebee9938f9c5c1dcc6321fcf1eac3e09e26d69769f9c3\
    76d301db34ebd1214c7a9250d0abe59dd86879315e97766626504592ff83ba45c0e403f66fc95e9b0d6f910f25355b2c0e581610b5aadce1\
    1b962f88b5d57cca18172ae0d0a56ab91921a9f88b5601e298658a8863c7d22aad5627adc98ee2bc4cda042bc3064530e24c60d5241a3650\
    7b7a2eec318e243f684b94892adf6cb38426a153fca7da97903b7786a523b022257dd83258f3d69ce56d7bee64975b6591a8ca7ecbfae0df\
    6419b76027f51e4454c3d956367b9065149b13d0c2b272c9206e0ecaad4fffc820b2ae65483eb60b590897ac9ac3bf80af660d5382d8abd7\
    1c9c38d6389d09ba936f4ba1b07814b330a8d2070335d96398cc26f758fe20538ac33ee81ec8f82d6e668576293290366596f424b5296f61\
    1ffdb717b8125bd6250196394a0efb0a9697fa9ec09fd508b9492f80433bab6653e6467e12ab12358ba5299d9fcd60ec11c31419978f9467\
    95a49051268980b49b75294da3a5261808aa30739003c84ed32a5734aa0846be94cbfbf66f2f698d7c5909a31dce308fa339b9c1ea2fbf27\
    f9e1850f24faf029bce179a744a5882406eef9872dd688f17d98cc0eddc1c994f0df057d64e1e70673c29dc94aefa21328cc7d99f6c2da3d\
    c2cb9d342a297a89d5fb77fb8dac4c627cbbe5da8d73cfc543469fbe334ecbc0a854212162db7af971a94fe99931d05585278c761815d136\
    ab2942f825298771c896b25586202262e85d3ffa3c75eaab3739e19d35ea12a698b0ce90ec69626125d66fc1029022ae5d57e4548e175dfa\
    8c277016dc8997dce05cedb0aef80790dd5b53fbdcfa104f40023cd36c560f7107124038a96dbbc45654131f2d44ec77f763d48b1873eec5\
    8016b4c1bb8455491f2d2999c6a97f2f7c91b7a171a842b8d3d661b4aaa676723c8dd9fe5a66ce4b8c384cc35fed1a0576a4ba66ae4a2c2b\
    d909aac33bb316681d3daedd4661a480a8252850b8e4b0fdfbbaccea964de0da765f0ae85fc267f29320cfe6d97b7ae6610d2ac8f85870b3\
    c243bc23f9ec45e4600dffc299b7ce21df34f3c76aee799ba9ab2968f52c76ffe86988eac56a13cfac6c2b8217b4a026120be1354787c7d1\
    179c062c8bcb2eb7372ae60240f21cb9d882e154b0493338d10610ab9506fb52e9ef1a9f7ef1f433de3719af2547d05322cf5fa847cc958c\
    d35e2aeb84d5412c81b8471b5ce9fda573df031e21dfee51faeddab62fa38a77db30e8742afb4453bf3dae19f07483dc3aed9cca2e405820\
    664e946f3e56d7201ebf3b41a509c1205ae2026aa663ffb15dc12b831241b55a8011ee2e3ddcd0ce968e37df5797d4d4b69976dc5d641e4d\
    e56a92630b612ee1cd88ad73491df26fba646940e0930f85931f38aac52942c7665e6a136d3cf53bc510582ea41375fb66a0f6cda2e41650\
    1148a161ebaa2c4b8f8ec25d84e4ea7c93b4e357cdf8e065c2cb6f861cbdcda71ac6acfabdf7ff265bc02d68c65a82295bcfdc1dbcc2d29d\
    0bdfb8502df0b4ea8879b663839dec0a22de1b55267fe3434c23b653103405a576665d3efb5964d6732d9057b52a3f600da8e23f7c46cf15\
    2775bd1f6fcf9dff0ce88d11778c67131b47e384624ea5bad9e47cf574d6d0b6707f96de85287f954169f6dbb218a60865702c22faf7ad59\
    a53e677fe59d0cb65df1af00bbbf6b155a27a901d396b9e09ee61c6418a191dc046f04b95ae8ad056efbfae0caee7c4e80506e79c364f472\
    889d61a80f326e003985bbfc160d4dad70815dec1920ab937bcf76890e0f95c6556b02285db9b7a18e7474ed6ce5057f4f3eae02e8df9314\
    024f6768238d719d984f705e9495147bcb19357fff31995e7285fd28dcd437cb9f1d9047755ef12f79c0440775e1c64081a185dd7e2a4a1b\
    ba6b19a270544e75fe5491b273f847d030081e2b595bdf664d3df05c3876b6484b3a27b244837ed2418dcb5fa25fc5732496a3d4d60029c3\
    211c702c74c9c94533280c0c68c1e60cd13030a6735809673c7ca35e8a4713fb09ea295cf37961d378aa81aad12b8d4012d694dfd02cb84f\
    22a8c46ed28537c58988577b6f814fe2c4076f1a3d94d0241b8bf602e507120dc20f966c62d87b1d3c77f92479806682c4e3440fa603edf0\
    75e2ca2152e146278f12f4eacbb1db63391fdd2c1e23f6a408c3b6dda25bb57b47691899e8c65d4345bcad9e3fa6f3c3ed3cf31e4d2352fa\
    351b879f57cc393ea37737b8921c5ee40cf3e36c7b84ad06e6c3b1a3d8e0fa5c3fd577b67f5592c63c01c550f789004f0be266aff5748f71\
    250d993e29392689fe002e7f8b31b6e7b333f6baf42c861cfa980c89b40f596abba7a10eb580dbbc34b2dfb66fb42ff3b027b4e8475bcc13\
    63c1ce5848a8b780cbc43f4fba98fca9f558b6afb23264fb47cc901dda436ef80d64991db447ab93ccdc8e1639665c133882d3187b26ef25\
    b276e1d834239bb64d00c835235efa647c5a2a6bce848ec2adc7b9a1613f7df3da403722f9e490ad3ac2ddc456c17a3c4247b5f16f82f360\
    07fd9436c8e919224bdbcab8942636c6c17bc9fc7a819cee9798dcae2e9434e62cdffb4d7b41b90863675555317b30465c2068160a521d0a\
    ce24a34604f3e4c207947c96ac394f56a720f12ad5e12e51ef25a83f06a3c04d3dad7ecbcde7af02fbbda7b910eb28344aa90b77e0935bd7\
    bcf86f303abc0c895adf28c9d13e708187efa5142a9bfc8498710328a404f3382fe4b722ee9b6f645e57a58857d267f7234cefa7eb05f5d7\
    ec55cbb397ecf2acfebcb57fc2b7b8a38654a7e68f4f11777548de12691bc2e5d130316612337510f77a965debbf38d44ad9c1977c54cc08\
    90c84a25a8ec0cad2c70e14f5804306a9fa2fdf275fff09356d66e9f35b99362b79643eb668ef89f3304601430c9a39dcb4e8f7df00f305c\
    a541817d5627590fc1ebb90f056b186a";

/// What the guest signs with SPHINCS+ for the handshake.
const HANDSHAKE: &str = "\
    5cf1a2a0a206ad62398c1a37ed0e967b479a47f70314759b15631d265a9121cc1ff5c2ff0550fc0b7e360c0fa9920e48b433ab98448e3a5a\
    2975356c2bb644dded6a4dc8ab43eff087b9dc7d8ecae78eaa8cb2dc9dac77f3bb09a99b146f29ec491e76d478f79b9d965ee0346774f90f\
    7f6bc4d2bee110df7b8198935c71ebdb86c7c5dcf6439bdb835d1a53c42fd4ff279cb305d111437f1e1d3157cb8f40ea5206a662f65391f3\
    d76dae91f396606aad06a906b3188436a26279aa963a2d5acbc2ca63b1e6202c8a693aff0c5d1d1d4e0fd37b141a0809b7ed2151899de6c4\
    b64fe102a32ac0006d4a9c1f7a8883ec52b2eb154f7ba2eba6991da50d93f9b5dec7c39692c1598e2e3badeb2717db82e2d5fd4a44594483\
    ddc6febc1295d3e32a47bd3c8b92139304574f4bc050948f2a3b2ec109ed2d1f48d3310e60f61b7621eefa0c73a62e11510bbc098f53c0dc\
    b1a702dde63046c3156e32e453bc42e2e6f36572aad46b3e1c4c6949071f276c6a81f44439576630dbc515880238a9a6f5013888aede3caa\
    53d69736621954e44a6f928c0dd73d67b59546e95285df80f0776de236e1c8a77ba2315cb5a9e000df5dd878f15bbf7b4b7f3dc07a17abf1\
    102dbdc8638aca336ed90f689983a54ed82c034e1ca1573d7ad712f97665d5d0f75f02c78c8e35b9d1f00de9a57f47aa78e70f59c48e15b6\
    3130772a5b60c0c4ef062e1e681bc52785752e9d04937d0894ab3602ff3c8b8ec67b6133559bb79f08c2171ee9a5917637193f0d4e433586\
    1f873289d858cd5fd2bfd75b090ae3271b20e2782c34f79361a2dabdf455e96e3fd9409fdf0c787fb04a6c28d8253d594b3ac87a78da54ee\
    64c00fe68477276016bcb81b176f71ee213a1178eabb97367602273e0d3e28bd980e74a5a747c1dad5f3c2d05cac3bc31e0688631d0dfc15\
    13a3a172d591bc97d731fffa5ae11ab61785d63dbe1e71570194014abdcc59a96a071b0b892ff1b38fb5179de2410750cf2480236dfd6a03\
    eb3320124c525e286a7ed8c991d5fef8f4973c1bafd94211b794b71bd07fa14a2aab558ecc38a098c0dcff07d51c1162518d79610ba3352e\
    99a43b3b7e89131e4bb10790e687d0d944018e485a00212ee116dfa54a21c2aa813e83a712ea315198c795d9ee76f8e5e4085656b2dd34e6\
    2e5cb87634b0307ce31d3fb2800c70fb8f0d3fe1ffa68d252f2141202d35b5858112b7effdc0dfb88c44214e4b67f3f32a86c23a0a9fe7b7\
    f918ff448f431eb977c7a4c503e081e53e328580dd3c01007dd7d31abd7e0a5d77d8090991a830e01ea713e71e7bc10fd4cc418b9d7f2265\
    a8b423e7f4689636eb56b0981314bce7e570abed1a1f1d0f5b5b0541e7719b57e83173ed11f33387b2fa869c371c38643b7caa14b8095aa9\
    d1ac24a3facf5144c36ee59e258fa2a025914644ca65c5e0cc0ba01d6f1c50db5e581b4dc54c1f4147beec09ef37fa85f4c6eb7a829a18da\
    f72692a4fc66ff9a60200e1a7325daf26bacecfa9c12baf370b43ed91eec3ef6ab75f94f967de736293bfd0864d78c56c45b6781f1a093b4\
    0281b769cf1b6456de6f312d7f27cb4b46dfaf39ed34aad764dbbba8a72c49a605e682ff2e0c797bf9db73c391b83f1edd91583958fedcb0\
    1f7e4cd7af363f204253c171e308e0ff3b5e51beb30b8d449340ab757cf5be03b9cd901187fe66c76d91f695a0717d979a8844cb55097aab\
    639c984a68089708861678cc9996d076f85cb5b2e9b73d1aff513c3f2ac2fbfac86dcc974155c7b6071f145704d0f59f10de50ce68a1995e\
    aec6bce895b561c19ffb9c09cfc156733fb18c989bc284cad4ea1c0c89c799becd6db768d3e33dd46ee08ff0da8d66762cf542ab69f8cd32\
    b9592ade6606a23282bcaa9ef5732f3643e2749fb0433fb6d1fd2314f7f39b9587052170a7cf25b7568d397bc6675f73940182842ca86671\
    8c2b9d7e4134d68897f4b9cbe16175504dae06d1c92c6c633d9807d3b7b4e8bc086e539233a61ecd64d9d8b5c1b7940a9f388d0baf89e146\
    b3eb5cd098a0ecc38f9164c25e28eb72fa02f96ddeb72ec4dcf06f4c1a8587ec96f62bb805c2aa620a10a53c5866eed310b9a70978957598\
    ec5caee5b7044d5734b978f232bed3741679e0c0d3e91fd1074ebec172500d6470a58f44b487ca7288778e83ca2a26991dd056d9433562c7\
    ec272e4e7428b9b4ee12d839088fc057defe14a0023d417ebf5a9107b4737c6676601d5c479647b31a5ef2c6daefeefc84a383453b2dfe60\
    872ab2f5b1790913b132440426b61fd9c6533937e05353dea68a066452c2dd3eb8a43a2d3bf7ba18ab944f08cd8d62cf4d74e6ba411ef0c2\
    adfe6399877a1f91856a070fb7d180a46bdf65c483bf1e9b905ca93a1fcc1338d33910989097da1c0ae96c0bfe685db88c28a0391d8adc6f\
    de85e2fa15b3ba594ef855fab317cc222dc72bf7251a5f80eb07ec50e325e414c166400455d4861b44d81d6d5621b1d9a9abec2512a473fc\
    f3372d0fbdd36d8cf880af7669e6de4cbcb8eb32751783ffe7c8e0b03eb731b22da19923a1a7a1d112e214573fb5ef3f00df6bd04acf005b\
    df5c6113966cf04f0bfe917ce1879d8d2a4d803c5d2753b64d4286900afec332f16ba537ed7adc19ba1183e914d1ab147b0590c9916e5e52\
    3ee521086ab34445f610453be945cb39401b79f381b6087b5a79edd1213f8a72aa7cd42410b1bfd5aa58fcf3c30dee8aeeb8a772fb940f45\
    81871e11f974b46b0a0c7d4b637c4ec7f89dad8b99581e6487f0dddd7db6747d09257ddacb2429b3e37ed1c06d128879c8cf000199969015\
    ce6d96c6c3ea325cabd031f1108b49422835480d4c003d70df8e1472ee9f4d1e03d1bd13d50fb28a5bbec6c6ec292a22110c243a0af429ae\
    d20af5d997fea2c8bd10b55b236052c9956fad751bf28c96e2907624b934d5492b9582761459586be7a65dd20f81aab9d5e60dc6bf9febed\
    417de1921d35111a6cebeaa8300c61a53c72214c5086772767bd8840d826f05ae865b5f1f8f3ec23aef13941d7e4acb1cb7bbbf2cc3c40ee\
    62d0f45c091e369147bc6da3a3870b73152f29413f92ec94cf9528fe826199bf422c8d806f4e70d1403058e5fe66b0f6add6a3903266207d\
    eb40801d54a43c0cadcc5d46307ab51f1a84a57a638d97259fa4d66f8d3e82d7dc27daa976e09080a74c67fdf9c67bfe4f09edda9c2a72d9\
    354738e8b16663ba1f1ca767a00b60e16f1c46f7898389bdc627ecb748783c5db046a2e1b995f3734ee665e0cf884c87002ee2562cfb293b\
    b5d3e494407117ec04a2a4f06c50b74848c90e5c3a4106c96b909221d08e9bbc904d1f1aebe1fb9ab3b7db11dec5341d4740aa083ee831f9\
    adf45017d56a21a2c3fd61e7f69d03efcaecb777a2efa4d745d210c4dd1a23234c1c5a80b0240b024800c3ca6f45ab7c7b4eb366167a556c\
    755ab48707772089d3669ca2c417ab733ab160fa577144aa12e0ca0e643767c15a79d950d583387eef9df732ef43d9c17dca62ca3c1fe68c\
    cbf52756e81a64ee932f6f7341f51f636d1d21e09591274ed20b68a92e16cda5cd1149c47f417ec4e9322dbddcbcc568922ce505c7252bd3\
    59d4d0edaf3ea3b686a0221ea64c2a60033da65b3675e5295069975a4e8c58dd46ddadc9b3a0141b517a09df00be67b2a7204a02965694c3\
    89a1ce3b1bf1939970bc9a432724203cb9b9131686dd826fd88e554428a2414536faca2dbed90ecf809540fcaa2064bca7634282ae8ad3d8\
    2019d505e4d2d02edbf6e00f6054dff72fb57048b0c4de2a38c5a671c45b7b64d492226093c1852f6c71bc88ed62b71ff5084bf525284e3a\
    0351e06cf81bc8af96141bfc5609657cf1ca8b063b743d413230f2a62f204030867a26fb70eaccc3fef62871c3ed233058d14daa7e7ed493\
    50933b7d7250a6032b15ecd5949e15e506bab9a7810d316d653afd48cc96f37d0466e69df0aa9c295ab1afb72dd8def92a0a557e09d127c6\
    cc418400bf9d927aa5dda1800c3d579108ea372cc965b2ac8808b364c7d13e952ef8fabd3c0ea864a5aac22f214508fbfc761cf84b678d0f\
    5d47ba5d868cbd74968a74ef3be1b09f014e53ad5fd450f35d80776fa50ae3d6e902a0b52196dd72667c296bd47a5ee3d12737156e3ade5f\
    7e283b29cd9a4a4dda743bcd738877e0d31297d8d052837841b4c23986dc64da467ddc924d900f8cdf9b6a9151e96333bc3a5aa9da406cb8\
    b4c4e4de9d2dc505516ccf7be99c4491a07df0799e3f73c3d5af09dac20b4323051f18efe45e0577d0a4e1c9bb21d01a3bb00d83192d6bb4\
    0bfc121f6bd683163a63b5d87d0aeafe3505e1639f76989a7576644a73857484183264e63440b7b080a90f1dee78cb3c9eab7d7039fdf04f\
    a347c4035febda14df22b5f86009b69794231cbb4f598ead630f7ce552f1987e2c5674dd42dc171bfbfd3291c6839d0834bdc5dc188d2572\
    6d3ead62c910102c15affad2491c58f0ff333bb79bdc2b271742003636b9e81f8b316817abde6479156ac884694e59730c5e616d61a1cf41\
    d04ceaebd76b60df2db27be3fb078140792f54089c4921d9461f5bf22ab05985ac17adab87230498cfae18e494a0fcedacdb150e9233b4c3\
    b951bb07276989e0bc04626c70dd6967cbca873d51e0860bc018a0f8099aa8e542f826faeb3aa40ebc92e84ec2fb966d56702f76e2fd2d21\
    77e7a6a93c86149ce022d8251f33d57923fd3aa713aac2147512dd6f7740cc0abeeb828bcd6d6873fef775d6e61ac16d19cab4e43c2908ba\
    19cd1ce0c53204b446df75633fb7dc718e091be96ccf1ff4d0d9fd0fa317d75f159c6f6bc3b9a75619f614e844fc4b07f7e694b8f3d73755\
    6882ba5c95794a12e653eee02c78759fd9e4666cced19002c55895aef5283f8a74e1ca186726dd1c9ca0df262d29326900e2036f0c250d00\
    18390b5e0511086803fcad36772c29c4685c8bea1c2f3190bed175af16256df8a267bd85dd29abb2c7a073e9778baa4b632c772908e7ebb3\
    476e892ffcaadf4fc56afc96959ad319d7f4263961b13c2319d927ca43a226b1b4c3bf0bf42dd6cacc801ee47abdfd31e0ba8ae94ccfa66d\
    2fc94a31b8bc5ed70098d6256eb7660fc0508f8b6e4b9f36d0dd3b9ab0f674a450745dbfac48660a238c938f0cad90f92a3cfde174441e96\
    3d036c039db6ba82d632db26557460d4bc8d43e436f2767080b1ee63d5b5c864a5f922a99f018be65fbf14d773827e98dd51971ee0e25406\
    8bfe4e25790e5c345303c8407703362481093a5468ec2a06c515bc2be69d5293ffb6f25dafc4bd10c2a86de9e5e188d2cbfd8939e9e714fb\
    bd60cdb9ceecdf24e45e7430cd7afe2d4a2561f7013dfeb7a3cfd8c6a0da4c59809666a27e547ee66d17504142c299fdc9d42d8b9f4b3a32\
    3ce549ed0cc9fa43abc92c485d4524f10b7237fa92290f7b2e9696ebdc6be618a81ddd127000c1e634ce0ec7f8197df6283e162b82dbd0f7\
    334e02903c0d833251bc279e8d78f181883b5797bb05fd07ad7dfc65fdfa5fc6096e3093bf3256f97b10f0f43a38df8e10e12834d33897bf\
    5994b08b4be66e70738fdceba31747528f8a4517994e24f9d1e2e4f7408b2e3e69694aa5c635c76985dc3459acabd97d9dd5c6eb0e868575\
    ab2a890e142ce84c938da361cea0575df6ea5547e68b9b8f950302f11cd525f3b897d8b9e2b5a5daa28db714c008f6af9ece5e6d39d436ff\
    3d5f4453557696f85cf304ae8b36b79d79a979cd2d4e4f1cf590343e8b33a2915f5f1a7d94eab831daeb8b16ccc47e8ac7d0d489f74fb247\
    706ff3deb5ebd5c983fce5c1e617df1960514bf81e4fb1ddd769cd3d426c8d1b30438114fd58047757036128f2b2c935fd1491be058c82f0\
    a8251ef3c89e85ecc23a61f786ad7ab03edc80fd824fa4e1436351eecd138cd6acfc29dd00571a54ccd6b008ec52979b574bbcabbf6d4f0f\
    c5983a0285c090265b38681531fc2e4dc4408d52f1f537a10d62e5e72f4a7087c6c5a1fc4473c84b0125b27ac69dda206c6e73ed08b6ca49\
    88f9a9b5a6ef01939799b1b1f2352b9615c92c153abc9c00e274b4a17e7a0dab7792721eb0b56a8af591d4cbbe27a1d75d155463002ae3e7\
    e83155101ca5a97a6b5dcafa867d7660817f94279980797578eddf3ca7d001bdadc93bde86115d2c8687bf3e9769cf584a91acf18d38debe\
    ebe6f333f263cd6a8d174405a710ede29977c7d3d6edb919323bd7a3fb4363f5222720aec1dc9fc43e04d7875948c666dca4ff8da2ee56f7\
    4968d504e9a80d3a0295d46ddec22959b5c220a553438b9fe7bf2cf42461b3781b1396bcdf83d350dc3551dfdb3e59a6898d141af1a90bf0\
    91428fc07288275a296353fa24962ce0bdeef385a31ed8afc8db8744f56b03d6b4cd95cad6b3fd5f31a508a44db4031197d69847d6ada9a2\
    444b3147ffdd2be98ac8683e8a3e58bddfc07f828ee9d3d74dca0007bf1a8d42b89e28cba22647106f025c0e7089f9181def0434f9f66422\
    28f65eb50972a21cb09e977818e0d85d69e4d045f57e33e629c875d45abb834c52b6e2a5f6808128a8c21e3a0c2eebce95671a9895de0c1e\
    76c2a870807c2a99c79aa48e89d409a7d65279a911d28a642fe9fb045473ac30b9e0109add70953b39b1f92b956706b732694bb445a255bc\
    3ce517cb4bb3ffa59509f6344f057c38845938b6a4a3a1112c37c5203ec7b32eb5e9d95f3840b970a6135c9d6230152673b5ae33ffbacf1d\
    f6c44b87ea6f80f34629a4c9b5032689a39b65d353ade1fe05f090bbb36b5bb2260303068e95c862ca41966af213ed81dbae46a3d0748806\
    7302ad7082f976cdb6e94bf5f7255074d13dfb045923fde049a8e72a0b580ac71f90cdc359e66080a9fcbaf8df092b54d87da23fe98068db\
    34b6729d9a90adfb037d2eb93a8f1b7b11614891c655b5f73db1011f34a33b014d0c024cbc7234fe13961e2e23879605c654cb23c2780860\
    a97285caf2159cffc467657094d01d0f6aa86a4e614ef097830fc22b34fbf4c14664489508dbd907152577e6c2c6eec7748a6c27b476544a\
    6bc4c2d6553e3ebdf58fc37bb6fe4db58c0428e5a8bfd95508dc6fc8331877e960928159b98f5aefb595fbb8f8a56b6ef583367bccfc51d4\
    34ec1cff699215aec3fdb0d810af72b21e3b323cd14d308e8f385ac511a6367c5b77bc40f3f56a75ad6a811bbdeb148e7285e55eb1925e7b\
    ac69295a0673fc599cdd00e46028e8a7ff1bf430b5afbeb2c16331a073894d6461ed98987b0ee30ffc37d965af237b2414272083134147ab\
    b69fdbe30a700e6895ec926f961ab02fe2efc5b093ab30910c83ef953e415584166c630d0499a37ea241d1b3fd0aedaf199870a2dc873807\
    5bd2a37020b008338e6e2fb2b839fb60af07410c57ed8078374f5e211c76c12bc7a58d5bb00238d193052a222dbd8d6f3704824181f594d0\
    2cc0786368b55f7966ffe261613b64d29b5e8c0183d1bc8faf77c87b11b4627d297b71014d20d37723c56d9df565dfcec76fb9c7f14e0f2f\
    4736e53229fd2c81bf42e56ef805c99e9656dc240b5b6903bd95553144c08e9f967ec4f6c2f3ccd6a7594ba3ed05fd6e8eaaf7a135a11d0b\
    9220e1564efac378741964add04b8d358b140dbded086bfd2f52e5c40d0e4b01b2a110bccfd939a29ad32eb1b6c1ee8beb964fbbdc4c2d58\
    e12f86f46c9f738bec3d4f990e0dd86a64bfb3ee98a18c6c0fcde1d48cc3505219fcc7b1a76f7939b6977e7ee3366e72a20c523cfc76e6db\
    09f0c3cc366522e30b0a72c4252283955575ba8a024ecf235260071085b535e55c630bb797b8ad9aa21d139cdbd470b6cabb5ad8dfbdfa25\
    b66f99bee94fc8528407d44f2e7fe7039f34d8ac27afe6176c8e10b9417a511b9a14fc487d04ae81cb6c05f8661346fc2f1ebfc15874cfe4\
    f332de1e67b8678b55c00b20becded7fdfecb978f4f9c2b50090844338806fb0e2d541fb59265ed1005419c146cf7d34f7c63e979eebff41\
    4914ac22f84bf04a47827b8b5c50dd111c903c038a6a0dc4bd4ce58ed2dce86491fe6733d9e31ae8f7b7b5b1c60218d3b6d0e8e060cf238d\
    75f6d44bbb3b892057476c154c45a1b80d0395314d9075baf7d287e3c454fa1ccdc84617dd113cce51f89a5a60ba9523b8a3ecf4260e9185\
    5a5f55c9994ce387739b1ddc691a973df6823ad5edba6d9b675633f88ffda27e14113e5e14d9cefe2fc895764b1661d42e340f42a9f2742d\
    51e41942675d80b644363418b4bac0bc0bdf054631047316f4524eeebda05ce7204e615f268aca27be11c4884d13b089c8c254c42e6ef4a2\
    e707d613d5d10b863367cbad500027bac45a7b1088672b251ff781974bf6e2b47e4ba72a74e994cdc8d3ee17838fdd4bd69df744fad36006\
    b3e39084de35c852678a3cf972d33b7d095075a0226d394fd181ec225c0c862016f6f761f9728946e5005284a667128291f9c5354033c560\
    90814c9af9749fb49f76c41f1700237d6d81e72e13d83441207ae3572fe57b11ff102502473450aebdff584ebb716daff19b795507c045af\
    54ebce22aa22098d75e06992475cb3523480e8e17133415a02a16172b0e708c028aadbafdc526621e71102d22d025f05cf0cc8eef44fd231\
    0db14d920b5a10aaf8131a2a84b2f3f49a44f9f2863f8eb320e057c1a91ae600d302e3b24346d45a711f07b622ff6417d8b55f3613ff3c8e\
    cf9a233b892f8849763d1e1a9f301adc3e1132c2eb6ba52dd693748b6bfde2f5373d997d769828aad00ce8e97fe81be040910a5ded6926c6\
    a66f16a0653f058d71bb599d478ebb43e1a7740cd4a30b62b27b43e42d3314fd192de97bdb1c53017a4a8c6634f31819d712eff2f9944121\
    b481ab54f6c20179a437bebb56f6bc9740c1aa816adad6c6e8e0125163fe00a8642e6e0506babb10ef0f4b2df5502557424dfcdc2463313a\
    007223c9e22fd542f0672ba29322524a54af789442a368805088fb6f7146109320dc234b4aea3219d243b9640ba1b359bf500247270b82cd\
    9ce5daaf51a25ed67696e517927e70eb53dbee4e3ef499cd9a50546d3bfa1b6089cfa4269f13b74094b4e1b6478a3907efc9cdb8a145e54d\
    281a6def913c37654369c9dd285428f1f12ca211888974c05b159956275bcad22a34f8a8871714ec0b6d752e97bf1f760325e13b0d39d02d\
    555473b7383faa11b3f44c554059044c3c84823c694adfc037919bc50b088585e00a579d0227578ec6a7d4f743b9ca33bcacc3158200f28a\
    28fdceaad8972aeafb8c7b7f5e869508fc88320b6c4ef869a14d472c4f2d0ac0846bf9284f9a6163832a95db2bc7fb5fcf95f0b133c7be7e\
    432e2911a8f7ea319a4708a49b5df73083d8568dd4e13b4f69af323ab631199e5e64b3e9d3fd7a9048fb26e8b60384c6214b277eb9e37d39\
    8f88933c06fadc07d6859c1423e69fc2df68b8368053704487a0cac66e27332b6ef52ec4dd3d5a81c534aa38f66086674789b9b14850e1ae\
    5321c9db3968009ad247fb39aa30f4f0755214fc24fdf6ea240aca2e6b6e03007ddabf2326a742b3e001484cf3dd8974e8949d115198dc3f\
    6e4341be7a3924b5497c8288a6073e2b1aefc32236dabd5f14b5ff5851f5524a48d4ef6ffdfedfdcf22eae97c73a13a9504dbd2769a93bd7\
    4a6a550de41cbc70473b2a2004086fe7ac1d421b836671c03c142165dbdcdbc8027be2e6f36e618be37e34883db242d0f1207d8bbd04597b\
    1e31f3fa51b198f994e780b41bdc06b54de22cb2dcc0c8b0a099e12d513a880956f87c3c8984bda9896a72cc24f9558a4e11563c1bb0e4fa\
    95c7ddcd91c00814fdf9049929e1a9add4550efcd2c89ead09b226c9a8b2f122285f313ff747d9073d66e258ce8b6c772d112777df6e0efe\
    23883675cceab36e74e130d54b6d301e84495f343701aadcf231bb868e4c749f0b398b7985f97ad8dc9f71174bec439d983579932874ca94\
    63401e7a2260847905b5639afc2c46b85c25015f07f9d09c111da3d3c2dc726979428a966e0ede84a185fbcf9ad441db94c8c9906a467d4f\
    cc870588fb6bdf34e3dabd0d2908a11fc09430abf04372c3cd6dd69b8798e62f81797b96a11fa46df19af8f115215be5b457a7ed06249bc3\
    de09daedfc39e45c02259404e5997d8d282c5a6e370902865d0a5a96e171c0e0d10c5a397a504ae439afd6f9817e5ed7954e9b788f1e5e5e\
    fc3094ba8630dac4768da602f3fa40b1714f9f6f1ce97586fa9e23dfd618f7e9d3a686bce5e68f0647a06be3c5a1bcaa18e29a1c7a64183f\
    4fd0a09ae46adedb5bdf0114f15aa7fe40389f8f591d452a19d7e582da4e085d0ca5c43b245bd3716f3e32308a6572202e3b0d166a86c163\
    8d61ed3afa481a19bd38c583c70138e4f0d12586d7ddb66d10f2baf9398e5aa442ff5d90edefd6222e7b904045d466c7ae92e8c5bfb4c5ad\
    47d57421f7c2429f8b09b31541dfddc97f8e3e4488cd47c444f060f6fa03d76d3271bdfff4c5a8bffd6e3a9fc166caf0cab4b19117d8b315\
    98461de64f0ca3ec35d708b09d274825979bc8f16966795dedea99900279a9e7867fb9e0e3d9c3af8e51de3d82d85a7e15ea9392285c0205\
    91e371cbe9a603eb26e88abceb85de6b027cfb50b4b9cc03c68278235460c5876b2ffe9d2932cce6d8ae0ea224852cba4dc98f780b3b04ba\
    5a77baab194746820bf82695fac30d351c262afef843052b5bd09ffd59b2054e9a95d12e7481f0343cd852cb119e97a5bd2a85f1b734f19d\
    42dd3d061ced1e4b93304fe827b8bab15f8afa9a0984d726605d2e6c271f3e4ff574a3746443c5cae7cc7ad905604b27737d0d80d3d9691a\
    a61c88c077e1d0679d7350cce1d671a51671f147a14ce0b2e697909578bc3a0da0a88453ecdeaa2290570bd7a662df8a6cf3caa1d8f30a43\
    9e9cd6966dd069038dac309cf5698b0bfb2983845c7c31d48a63764a51363b9fdb5f9ff7694b8f4e3304601430c9a39dcb4e8f7df00f305c\
    a541817d5627590fc1ebb90f056b186a";

/// What the host signs with SPHINCS+ to declare its keys.
const DECLARE: &str = "\
    4da000d0c0be6254a1561338530e049d432421714a1ffe5247013c44d9619651fd958fa8648488cba3b767573e1701a0c302aa96b3a83424\
    94a805ec72f1609c5e09bd5fd6f17ec5d69a4c4177b78edf21289fe3438f6915b35ce424479d6320e0370b30612891c9c5abff10829ac768\
    2efce820a68819c124b9378827b811d48c8b5dada27e374183e8d826959d9edc6e08c7d6b1797c777aa0de481c120b99fb58d7ebd4b878cb\
    7237ec43167a8662c322d6e8169c3e6e35e0de3e45e00faeacd766b73f07008fe03dab3b92649eacdb9e4fac1237decc3b1d8a504db52a9e\
    4041981a89fca6019100b2c29d280dd37a7b25dc305a603673598973aa3c5ff392bbff3ab154079f958194bc4faaf02e14903ff29993cb1c\
    3945f38f09000cdd021d7de4c4a52aeb0741421a7d3faab7a226bc89602b2e4a7d7b1a0eed0135a5c4400812ab78cfd73e3e5da19553596b\
    4217fe028a945820d95f9906536709286345ededd1c0fa69f20347e14e8dbe15cd5d37b81052a9547a0df0374549c912f652500a498ed2bd\
    9be1800fa1352e9256b4cfaf56dff1567f9d50c9eb8d00db3b1d611a84a1a176fb584f3b9d6d595e583e19a1b8db46091827e7e9f781d47b\
    8bdd1a94bf85187ad434ad38ba91b48e90fed7670055eb48397808ce5a5974f44d57ae75075b9379c9130265932c7939022874125f8e8ad7\
    355dd81cb23aefb00ceebceb5716e36bc74ddec67652da06da8861da6593155166dcf8de6f6f593f4b5520ab917e10ad3591fe6dcbb6b91c\
    d30d4b059f5b8e744de9094a6ec3d31839b5531be511ae0b6d12233d31f71e7a7c5c33269cdaf54c0bfa2f45a88087748fe5a5a0dc080ced\
    cdf2947e595190fe65c417f79748b40c86beff79373992b1d448093885541a774493c6bf4cbfcae4d1f2257147de491ef7d25ab15e8a51ec\
    bf12aafd7d2d5790bcebc7b0cfcd28b034ca931ee780d46badb12b7f67544579665bc519964517f0d617ffeb2204feab90defc140e8a8bc0\
    54ee5fd7cb0e06a7a78fde0d6af430d29149eac481148a0c21adceb8435befd4fd6db11bc9628fe4f11615b756da80698ae533bea7774ac3\
    817647afc9b25638d30621e736cfed8d305bfc4a7d0eac545b3cb9358efe01592b862a66a6fe404d287d8941965063a38859852143437b60\
    c52b28ebab0959f94b6ad65cc18e4093d82f3344124ee04d4f3c860ef1e03238e3b7a3efb2a3deb79f073aedf2d6908fcc6b6bf86ca317c0\
    ef31973c8bb6538ea95f78b4372cc37d8c571f821ac199610a3b127f34672e94a1ddb5682490d2f52b2835d586af6ee9468da7f3a063f66c\
    5b99d4ea45af71255c41d9083a8a6fa05d2f95ebbcd89d403d3305dbb4e472427b9a4fdd9e1d0e6d1e6d52dc3556eb4ab0d994361c629b42\
    239f94e18af569f0cbc8525d1ebfc566e74073f1f3ee9bb7b2661134cfcb5c93223a07603c02aad6134d1f4d0a8aa267ea30bf036899b6ae\
    20646155d56408ec5e71e36e20f44358825f69800e3879a6f193d71cfc52327a946c552613834efe3fb40dd3e7442bf1b43d3f777868c580\
    e83c8c4318550781b6b93cd8dc12891e3cd49f4cca6b2131bdca607acb61d8a68a2932b788cdacb2b3f06f329332711179900f3a8b116b40\
    d323649b4bc6bc56c8cad63a83ddf0cd42f986b43c2a2637f0360b5c0e27f7e6dad9a82056c2e6d9b0b5cb498de44ebe475d7f5e1c11eee7\
    01bfc7a85261a6afa2b2ff7e7000f2f54b1e748a8a7583296decca5c8682a78a236c433ad034094f77fcf72229d2d9a11095cd0df0c8657a\
    ea53307a4750c16e806fbdbeb2f9821c4bae5efb685a5afd8d554d272d615835316f360509f3b0b550b8a6db4db2ab71033eb244da1c10e8\
    ba59c425e04cf116295931847fbf6e0dcf056fc11f4f9671ab9661e199adb02e41dda6dbd120225e42853f28f3b9021761b5801fe5c1421f\
    96704179f3ab450703f85edc04c18693119d1d9dacb2670d1c4926708538c25000d76e6cf7c2b55328b19f31a51c32c9820ebd947626f129\
    bfcebe075386bb375a7eda05667ba804792f70057d74769276ec10b581a0f79824588cc3036f723720b5d28ac0af5fbdbbd11a3f08b0f4da\
    18d429d1d77822dfac9ccbde1ca671ce1dd8d2ed6b0ccbd12c8fbd3e098d6f2d25ede5fdf670a3a8e7e18dfea35d0d8de7d4f36c291dfaf7\
    1271f397f3c4d33156fabc9d6322c88821a955af6eb089b64f6aa3b1f0bbd95dd01e49bc9c08c11e22ba059d75a01278e47f2cd4fdd1717d\
    a0a87426891e77c8908ad75c27504253199df7094151231e8972d5ab9e6817cf258dff28f0337792a5d3beb580462b891ca402065ad8ed4e\
    e5ba65d6f99ba6ea77ec2b60fd140ee7224d144e25ca9ffe66cec9fbdd61692f070cfb44bea1a57f21015d97cf269a810cddbd675cfca86b\
    18534570a76c82409186f805d1e15ad7a7537f27416972f20f465a0e03a228a8b269b0be47ccf2e1c6f2d18bee36d78eee0bed5dbe07be09\
    f085191495caf92e954d41fa99aefe0f616564ab006835ed90d7b4e1c7c1c0f5fcfc65c93fc7af91f2bd5fbcf6698253929c7957459a775e\
    c0b3940a79c1ab221591b291540c257e812a59c58494ee082e459d0a6a44ffcc5ad6e69e8ae59fea3039edeaf98dd74950206e08dbe32cb5\
    5f41a5512ebe3cbbacd32c730443a749061d14de89ba9d756325999d60f2a6888aaaf639aea768054f39e80cef6cede450cc9cf6b09da256\
    ff7c276f0bc0c1e48d1055dd81589b2d427792b9739990d330cea06ad24b3a1850adb6c58ea04bfa9c8a1546618242e4953aca2d2455a483\
    60a43682cec92efdbf4669d9b26d7adfd3cf0ef36887a561a9e0442a181a227731864935ad7b8c5370c97ffd6949a43b448c856988dd9e91\
    e842509dc8001d6862cedbbd7a74840193549465ddb3557a94c3b2a1bdc8607c619ca03767de7eb759ee9327e4ec10bd172cd98e99129313\
    7d26a9a0cdce8b2c8fd4f060ec4087ff4bd3c64ef8130c4c4cd88ab2fd163bf8339a7d0afbb924a689ba6eeb8ce8714b1f633e5583c68d33\
    dcf9c0e71061b9fc3957bb5f2554fb0dd2b24601eb91e9dd3aedf8c3cd85670069b1e50bfc628ef723c24e2ba1e604086161bfa57a0374fe\
    baf272c5a85f5563798b8434bcb822408a5736ba191632ebe89e612e4570cf6ec5d3c062ca337da08358ad30535493546c83bc6a4e60497d\
    6b6d06539757b09e3e0e14a09d2a048b5f61dabc2adb36b6d39540c4cc5622b71dc05cb63cdb0b74ac70debd2ae2bbb8ea6b37a8d5f33390\
    c35b9e8e7db91e88f9d0c59ae1f29398a070791fccd034164bbfb5e15ca34454f7517f3273f721be6264e31022ad39e7633c26cf92195621\
    93a8ec1dcefc38cde8830469afd793e6ed6800c73d029ab8fd1eac60968eea5dd5a1a86a3d61a70c978700223bdfbe7fe254b32ad63dcb81\
    8077abeb176e4c27a8e0b3542aad64e6e71bed8a8a2985f9d0b689f67cedf751b8ca49fa58c82f886434f2ed07c259f6ba0ddc0572b21fcd\
    b227f8773afbb603a0ade86715b6dde6c739a3e7a145e312d97ceb436462334651c9a1a656260410d8cf1f3aef68178ab42c37e8599e4b28\
    fa589f97564d77188c3327e07bc2f81a13720151560f5269c3ab1fe563f90c7e56287999929bcad96d82998fc2012da566c71a5c4633565d\
    698bd7df6e784fecb15055cf729de6af52671c6fd6460982ef311b684750d2844474521ce2e3f4b21ce166cebd028f44278f1573acfccb25\
    9e637221338c57adbaf1a6903e69602275fb0e95bee8fbe853b962509342019be4d8d206e5eaa0d55ecbdcbd1d8645f96a3d1fab17bd6728\
    bfd2e81c7a0f76e5d868c97f5c82df17fc60141913c982f53d473ad5c1016dc99f80891dc83df3cd617632a80ac1800fd0e86e24febbda6c\
    fc3903328f1685f8249da8d364f5e4b600a931d849b16aa904d30b771e0cd7e32d453816689c509bd1a12fad0205910958c0b5aee749e329\
    058297d2be7d474209ff10a23f9d435ce6aeaa1ee35520f786c621a4bf062602fa02aecbd39b629e0295c28ea34150398f8a8cd5aad5a3a7\
    bd41dfa76835b97e49f21dbc3b238c58d400a8bfaeba993244d223c1fb045efb3dd13b7fecba3cd0981d6307ee50f4e8f532f0e304b580fd\
    99289a4a4a1aec27d716dbef9b239daa3bbb19149967ec7e550c9d590383a205d8100375b56da444a2aa9ac5564b493c4475906efcacdd73\
    9f21f31d93ab8d49f1792b51b87b3715c47a7eb37abe3ad8aef23e945c6e7f6af81d305eade71297634a99feea9e37f6432a9915ac6a01e1\
    d27e2460ded3b430886858cc700de6438b3063db0abb9a30804258ee108c8257535aaff338d5f1ae012db96b767fdcf8e72c4d6440fe8d17\
    5e29c79be224b1475bcb6610a29cb6a1b2502343ecc57da262ef7c57a6f5bf8c986800928dc90a6f2aacf7019431533c98f985702dae8b99\
    1aeff6cb1a654fd447bfd607c23e50691ba933593197cb5ef6a4b78af27091058165c1771a0bce3b69dd4ae7f8cf8eb401e54911b21a7109\
    3e9a6cf3589ecd11f9e11c047e79319a609c404c2c77f13faa65fa2cbb70673fb9b901640cf21fca7287147de01251e5abefedd0898b13c6\
    1ed323634a4920db6b20833c41f0feebd0a35c04ef4746ee4bb7357573a06720c26e4903930ef937de6f3319f07e2309ff0f77deb832356e\
    54d1e90b4dff628c75efd5a7bc6d9c3b7887617543b1ca396c5fc5d1ec9da90a951859cc463294f22e3818aa3b94f2858d183a7b5a01fdb1\
    4d12c18b01049bffdb57bb8277dafd1ace72f1a1aef321c774edeb60a10cbba987d7cdcb3f85c60c0e083fac69450f998d3e90051f25e805\
    23f59e66b1639306e30f2df9758c1636a31618d785d508d86ac499791b8c06cb4626a5dc39f3815efa3f336c151effcb62b192a9387ff024\
    fca2ab6ade2dba84db929bb3e1a5694dd12a65ae51489828218d0e7eb1ec648a1b9fcec17d991feff9d0cd43566b146c902bc2bd150237c4\
    716c98f4d255828fc7aa9041e0ef7f8e170277146743ad5457ea7553efbe16f23d9a71a25b697bacbcf5426c944ef42d1e95391b6a996fbc\
    cfc829403892cfeb940f8e586f463e966497426813a3eb51e0210c3a6925725d0562000e777ca5e2e03bed1d6bfac1ef26e0af3047b5ac3d\
    0238fd968bc240c169acf7676683312e1d517c8dbf50025de5b44a0425da8b1ae78af9b615e0aa4d61ff503c61417c8d290b41e2ea734890\
    ebc1627de9981de5f051a1b063e874cd35731aa1a6e0a6fc639ad481c432cf9bd80096e72169e98dfe05d85f9ca9275ec350eca491bd9fd1\
    578e7f896e94873c6dc86720e4f2ad2fbbae68a7e202911f64f470edb15d684d61fd2b83371f16981632c392273fbef5e6be6612652355a9\
    99b3057f0ef1b05fb8d1886ac1a2d6558bd605b6da391a4ef313b0bd79bd6120fcac96fd1e1504b7dea87389d253571ad9997274d3e9e270\
    201f6a06aedf51c064457cf82c87819ef3b8bf5e32f1ba64c2446a4dbadfdd5315dce5993f464ceb66297b2c184651aa20a5fe2e61582bb3\
    676e17ebe8afbccf194de5453798deda9eb529a74915372ad3f53a2d9ebe35ba612e156fdbaea9a2f8bcdcfd8dc0298b843de3ed9508ecfa\
    79e0e7ff5f156ca6d9534d1b29c091013f468fd7920c5f9d608316845a6be4eb05ea3032121e319d89f44d187fa2912705bb3bd0837f49ee\
    f9204c73c4eb2ed6bbe98a63bfd5a3bef1010f52c622f3c12f716bb79c266d51fb83db95753230c66d50fba3bc5d5680438281641136a538\
    e31f1f272adda43a9f5e88dbaf93a47904f5df459610a56833b9e41b20527442a4394a4eca48f7fe28d9c3a3b19ca5b4f8361e2f95f8403b\
    e38fa23ed36f4a10084e508d9e190649784f95d2d70a84c7352e89428a27881f4a8f0176edcbd4a94c876451e49f4ff237e13ecba6e17893\
    3461e4c37900deb5360943bf258665aed6b3f355c65d63236c8eaa4298dbcb604b9ab4fdfe141bab786d31993ee9265631fe882cea08bd63\
    9a2facb415a737e993eac3a87e37cc7b02ae7e78c7d89a3c1e8a18a490164c875c9e17a6ab13ca430d9f5963eb03f77d84db1570e888f6f1\
    b8386c0fbadd2c0c9439fbf93377a12353e1b623baf8c754e6b72f1dd40c2e7745fde67616998ae5d7fcf833ed3d6b7f759b8077c7fc3d4c\
    a1d82a0fee8d531066a51314d619c8cd7f04de162ca6175fb0801204963a7635467cd3797d6671ec2dd9353471d777249b90af98c297ad2c\
    17dd6ab34a9de5075db23aba9dc98ba18aded089fd1a58341ff38197d337d85221d9ff5c92ebe92e91fd759aad9889179570171180a11c80\
    2d27586772e4e3c5941972a1fc502523a421f86a50315bf70bb8b6422245d3b50f4415289f065eb0254a3b2a3966f26f7c168ee736f5d49b\
    a79723f14ced1e23d39366511ff94a8003ef71aafc9f407cf2a1f8f250c841511ded62b18ca8233e8acb8b62877ca3ebf6e15f9eb949b29f\
    81852c0bbcaf623b9f47715b4560aec803fb64a0e8d614aa49b4b7e7a17cbe0740ae12f3a3bfe03d4184a7b0a419f251c98803ea0b3d11e2\
    a6a70587de1462eb1393b5bc73ec4ef37f6d503eda7e663038a6f0875dd51e9f0f7427db61b4bcd726460e8a2deb1eb3ea4c416322f0fad6\
    ed2e608b43cd6fbd84c0805a951779ab00b51e53c7d829d7dc768c372b873f0f143ec2c9afcdb9591759b2db92030357037deb42efb1acb4\
    9cbba0ba2199bed99c21b2896d546bb5b8610d8b3cda2914b213156293cc711c9f6bea827c18bca935bb0d70765ece61422373c704b87f96\
    2445334061cdc1e8eee15ae8210faab8622fa88d4141642807a50a3ab757a630bcdf5f445d8cd0bd9d14dbb81c6c327ea88aaffae6fd02c6\
    0bc4230d8852239da274249168406f1cfa25071df5466365ff570ac9ff34f0d22a592c5d886dad7dd62c9ae1007c82ed094fe1938ecef12a\
    b1835855e8108a9043d519c8b76e55f2367f72022d5a53ffa7c7d645c465813eb34e6ddefb540951cc0f0ecf7b948f76483fbb8e5a808471\
    446c7bf231a9ae95f65219a76b5aa14f06b656671b683e8529c4ed02fe4240150c4db6412abec64cf51707eebf90b9b9a05c9b668d5741fd\
    cf2d5edcb1213e813e0fc77c3d2e5d0a573f857e2161b9d9a76b2011199c8012e94b11f64c2058bbb51024d72859a0811387c45cddf2aaea\
    1aba0cc5840fc5902812330415aa8320a806f824f4d202244fa9141e02dd37797e9d2a5aebdd259d4ce7455ad05609fb1d3415f3af3e5df0\
    7f7f839a1c3d124f14518e01b07117de1be3bd83e2086ebf644c35ef12d3825a143df3081137c1ebd1a3c364bcfb08982dfbf22c6e96552d\
    3b91b2ece219d96140269da54cab895a2c390f70684cc5e4dce3b4207a72af812dadff4deb0c56c7d5477d1fd93e0ec84552444d6dae80ad\
    2f4d1040cfe429afe6a1daa7df36ad6093859a57d2c070af155fe3b69b01e5afdae4fa45f7baf8965aeb0d36837030432d60b6157fbdc239\
    ffd86356dfaa6fb74ff76e68c21cd598f4185c8000c57195fbf7396fc7e38bb3814e44967d29405474069a7e17938fb6933600011e933a2f\
    63846182d8c8a7ae5e264febe9b7f46284876431b39f1eb1f601cc1ed3cfa73237c16e100886328ba9d27df281d988dd89bebf300c53df74\
    365aa73b2efda430d0e802fc92a218526bef9d6307318bb3b807f710b81c91a7781359184dc575b00b95bad65e93b26337e2414f1ae1960c\
    25d299f52169bd04b994b8a3265c43f978cf9a13659348ee5e0be2401bb96468ca3015af272dcbcf153b81f36b978e9f1ba4b50bc0bba04e\
    49f4f8998635f70797546db624a0aaa32e08190cf93ff8fb4ca644727054a7e6febed9f2dfc6f5e19f8a732cb9918cbba8298fe7ef47c97b\
    eb44b9d2aed50f89b4076aad0b98fb14f9119f9dcf1bac391c2b9f6bdd45293c986fc6add301c8d4505cbaab6d66b2c1b557485011086212\
    49481facd6f69733bc05934f13e8deefb63aafe2e5743e57bc3a163bb0dce3c87fcdd3ea825828f43a39ed7546c75f17c181e9bf2e398fba\
    62b7de5f1750603dfe0a831a17ee0e01986ecfefdf6771bbe8882416fda59bca85f0b597573fcdb545a2e16b9e6dc8bd995caff17de3f27d\
    254a3fbf010e23d887c890eeaf0552cf73c12e433c67d6795d5a3a3ddb09decf2d70ab9090e332922c08622ec15a39fd77fd779397dfe2a0\
    ce481faea4fbc0b07dff916148ced2356e45114d8b44c784abe5649167e17ed7ddd3783831cb5cefd0e68166a3eb49ff6b3126a0daef7616\
    80536616844a41db633e41cc2bdf6678fda25234f572e90433dfc9a59c2d4c84f450d52c01b27915e36f45ed862ee53869dd2503a85d2a72\
    1278758df7890f5ba8899161722841f2a625498fde53fef608e62c46ccb6fdf6a8f509e5ac7c59e2b799da876c336b4cee1479afcdb60c25\
    ff6792fb2bd44c21def33f9dcf1e470f2dd02382cfe43edadf3e04a5a5603eff378fb829e6a2a6c2ed1c07c9a7c96bca0caf14e386bec44e\
    972e0fcc8fb4350b9ffac61fb2519dec9d6ebf90b772fb4c16d4b477257791ce3e41c37bfe17221c798ee892fe0c6f8885b90bd23d87244a\
    9c1dc7a80b35f5449d02c76f1744ebfecbfb738c679146b962d634a999c86d1e6604362d9ae7ffedbb7eba043be4b275bfa777660b20d0c2\
    541659cfce83125f05891a3db2ad03ce5c2e7c60fca31f30a2cc347fdf44e12013b9dfe97f424aab1fa72b4f2d1efebb4196017a64b57816\
    e42200e53d1e39f21b781998b53e0be8a225995b0f39fd1470967514bf60f4283701fc3f3bcaa1c0af37e395db4c8ed5cf9d271f9b940251\
    05a07cc8a07bae6ae1f5154811b033c0fc9f61136cbdfe1453b5b5e08416b0732bb6bdd5653785db8c51f3a7cb1bec0107dc5d461e3a22b1\
    a182e3ca98f1b5d89aab9d6312be3848f0f9d7d53da29534f2079baf6f4049d98bc89c62a9d84a4ef6ef85c69e478c9164c707a6605eb01d\
    8eee9242e938de46d3b0e6ce76b1a01f1b070ce9adb7e1ff165fdecd82b9c2f999890516203258f09206c2de0a02bdc5ea704e75e2ba2754\
    37d5bf66019ec56fa33eb349de563ca315230575a31b31fae907263a4b70aa5e893a9683399a4612ea5374ec6f46fc6e3956595e88de198e\
    03993e82a1ff6a4796456f79b559eccfdfddd0667fe49638bbc0cd839b0ac1147bd6f036cf1e662f50a1d3e45ae7ab274609f7368dda4463\
    cfbb94622297a18ed8457a157167ea0d3ccbd51c0da580fb6f480667a436817636bf7e7314e1e0559071403049afa78e51309de789cfd574\
    c6f980bbe1d5ff33465ea802ba62ae2a7b90cde9f401fef70745d194911ef49b7eaa045d43449b58f667c1e6062599fbc633117b6d2d79cc\
    e668827570271e4d05fd4a3c7a5156de3421840e70182fd2199e362d34a1255a0988ee647c40f52f010caf04a8bc07b0501539fcc479732b\
    9623e8b6276598acc94cc310184f1da4baccf00d86e33ea104a82a8b6501f777f0cb2d53893dab020318aa86e52f847bb857a34b80b9fd32\
    a51615491751b0846a5cf9889d72bb53c9f7c7fbb887af908f673dc1c123c151884019ff3c788d966e1a09aaa51b5a70711e7e979aa01ff6\
    52d3f3b5ce28804729f9d90ba41c52111046e2e6eeb177917d2c04f8e51810e1725e9b69c6f36b7e44c7ea10d52432c0fa1cf778cea3a3d0\
    e6f55934d346b46c5dcfc7514e47f3f0dc005a3a8ef488b267fac4b0e2db4acc5f9a292f6cd114a2231f3fcdac9a5197dece3b50fc9eece0\
    04b4290a8d089a7a77daa30221270eac6af53a3cd491bab358f6d1400fd317e8ed04fe4c6218831c2870b6337b75511da6ec19ac9ff0e589\
    b7dc01476a3276f5a54d82e82823e2c92f94e117326f5d70129a42d5acb233504ce9c69f4cf55e1822c748e29bdd84e6848d4de60b808084\
    0ab1fbae43d96f25ebfed91eba152b1f0eaffb356168626700f87ef7c3c5834d0c8d3d0b8c4f5be4cc91fb95eccf4c69f2dc6bc11c8018a5\
    42723e33d58b70c7b02f2c64361aed7a9c70d8e37be330508ab63cd7179b43fafe1602f9c682ba10aef73f188703d5a3540706cfaaee0735\
    9f85f525abe72ee49984b1ee6d9c165ba94df27954c998090990cf6b4c9e54a15c06a8847ea6abfd77fc97e59b13744e3a4339b7ddc041d7\
    bdda38ae02edb9a3f38926e0861fd959541f89dbaa8adc373b59eb25f925ee5151ef717146e2a129ea6dccf6bcaadec88374f5e9a5dcb3c8\
    2ff4e57f289636d1f4e4f48d237e7af7eda2718a592caff06fe86740670f519a971404d093e744d042621af030e79783a7ffd9dccfebdc5f\
    a0ef7c2c1aa0b53cb04b8735a2a8b4430e0ddd92a6ddd295e231ed993844d685537dbe091eb654b2100fb4167d06da88d24c21b6230f7b0b\
    66802b0157f3df3c3c737b1cf0f87a77d06279c34d9477f814c432ae97799e54a4a17c14d457a968fec6e3fe03b286b4f6789269d0590755\
    75ae27876e72a7fa42deab7069b49decfc517656923ec5811043a2f51fbc5fafdda295174b6804deb040240c6755d83603e6b528e10791dd\
    a88e5ae66558c93bfcceb6186f28cc30a1772b7876704327d59131ec61dd15749f88302c26055d0eb67bd82a92383e98c9c870adc9a3325d\
    01232e67935e6334d80691e663a7867195dc4dcb349542d2fc3f5885633869e208bc005baf32a729c3a5c8ac66a5284492777c4e027372a8\
    a416f2a8ca12a8242b49041d855c9b86b367c1a6da1068c1048a05d42e040646d0325624a55a0840291d4e56ad15d207af4873cf4f3e9bec\
    7c531c798c6538b0c7c1318daf5165360a301e6d33345cacff469b8c05c5c3ebdf04475ebc0b556240010725b0f690162d2a9b3db225c17c\
    7fb4776aaf7bcd88ec55510dfaa5ff35107517499c0cabf9cac505b7343030c5a520c1fafd131e22eaf4715c577595f4e4e485f150e15efd\
    78ad79473a4ee8199b015a5f3ab08758";
