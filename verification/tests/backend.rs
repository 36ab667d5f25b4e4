use swanky::backend::xml;
use swanky::backend::{aes_round_plan, key_schedule_plan, DecryptKey, KeyStep, RoundStep};
use swanky::backend::{
    avx2_prefix, avx2_scalar_docs_string, find_intrinsic, first_unsupported_feature,
    intrinsic_from_xml, parse_bool_permissive, required_feature_list, str_lt, AesSize,
    Intrinsic, IntrinsicsUsed, Scalar,
};

fn xml_intrinsic(name: &str, cpuid: &[&str], sequence: Option<bool>) -> xml::Intrinsic {
    xml::Intrinsic {
        name: name.to_string(),
        sequence,
        cpuid: Some(cpuid.iter().map(|s| s.to_string()).collect()),
        instruction: Some(vec![
            xml::Instruction { name: "VPXOR".to_string(), form: Some("ymm, ymm, ymm".to_string()) },
            xml::Instruction { name: "PXOR".to_string(), form: None },
        ]),
    }
}

#[test]
fn aes_sizes() {
    assert_eq!(AesSize::all(), vec![AesSize::Aes128, AesSize::Aes256]);
    assert_eq!(AesSize::Aes128.bits(), 128);
    assert_eq!(AesSize::Aes256.bits(), 256);
    assert_eq!(AesSize::Aes128.num_rounds(), 11);
    assert_eq!(AesSize::Aes256.num_rounds(), 15);
}

#[test]
fn scalar_backend() {
    assert_eq!(Scalar.vector_backend_variant(), "Scalar");
    assert_eq!(Scalar.scalar_docs(), "");
    assert_eq!(avx2_scalar_docs_string(), "# AVX2\nThis function uses a scalar polyfill.\n");
    assert_eq!(avx2_prefix(128), "_mm");
    assert_eq!(avx2_prefix(256), "_mm256");
    assert_eq!(
        required_feature_list(),
        vec!["avx", "avx2", "sse4.1", "aes", "sse4.2", "ssse3", "pclmulqdq"]
    );
}

#[test]
fn permissive_booleans() {
    assert_eq!(parse_bool_permissive(None), Ok(None));
    for s in ["true", "TRUE", "t", "Yes", "y", "1"] {
        assert_eq!(parse_bool_permissive(Some(s)), Ok(Some(true)), "{s}");
    }
    for s in ["false", "F", "no", "N", "0"] {
        assert_eq!(parse_bool_permissive(Some(s)), Ok(Some(false)), "{s}");
    }
    assert_eq!(
        parse_bool_permissive(Some("Maybe")),
        Err("Invalid Boolean string: maybe".to_string())
    );
}

#[test]
fn intrinsics_from_the_document() {
    let x = xml_intrinsic("_mm256_xor_si256", &["AVX2"], Some(true));
    let i = intrinsic_from_xml(&x);
    assert_eq!(i.name, "_mm256_xor_si256");
    assert!(i.sequence);
    assert_eq!(i.cpuid, vec!["AVX2".to_string()]);
    assert_eq!(i.instructions, vec!["VPXOR ymm, ymm, ymm".to_string(), "PXOR ".to_string()]);
    let bare = xml::Intrinsic { name: "_x".to_string(), sequence: None, cpuid: None, instruction: None };
    let j = intrinsic_from_xml(&bare);
    assert!(!j.sequence);
    assert!(j.cpuid.is_empty());
    assert!(j.instructions.is_empty());
}

#[test]
fn cpu_features_are_checked() {
    let ok = intrinsic_from_xml(&xml_intrinsic("a", &["SSE2", "AVX2", "PCLMULQDQ"], None));
    assert_eq!(first_unsupported_feature(&ok), None);
    let bad = intrinsic_from_xml(&xml_intrinsic("b", &["AVX", "AVX512F", "FOO"], None));
    assert_eq!(first_unsupported_feature(&bad), Some(1));
    // Only the exact spelling `SSE2` is let through without being required.
    let sse2 = intrinsic_from_xml(&xml_intrinsic("c", &["sse2"], None));
    assert_eq!(first_unsupported_feature(&sse2), Some(0));
}

#[test]
fn string_order() {
    assert!(str_lt("_mm_add", "_mm_and"));
    assert!(str_lt("_mm", "_mm256"));
    assert!(!str_lt("_mm256", "_mm"));
    assert!(!str_lt("abc", "abc"));
    assert!(str_lt("", "a"));
    assert!(!str_lt("b", "a"));
}

#[test]
fn intrinsics_are_documented_once_in_name_order() {
    let all: Vec<Intrinsic> = ["_mm_xor_si128", "_mm256_and_si256", "_mm_aesenc_si128"]
        .iter()
        .map(|n| intrinsic_from_xml(&xml_intrinsic(n, &["AVX2"], Some(*n == "_mm_aesenc_si128"))))
        .collect();
    let mut used = IntrinsicsUsed::new();
    assert_eq!(used.docs(), "");
    for name in ["_mm_xor_si128", "_mm_aesenc_si128", "_mm_xor_si128", "_mm256_and_si256"] {
        let k = find_intrinsic(&all, name).unwrap();
        used.record(&all[k]);
    }
    assert_eq!(find_intrinsic(&all, "_mm_nothing"), None);
    let base = "https://software.intel.com/sites/landingpage/IntrinsicsGuide/#text=";
    let entry = |n: &str, seq: bool| {
        format!(
            "* [`{n}`]({base}{n})\n{}    - `VPXOR ymm, ymm, ymm`\n    - `PXOR `\n",
            if seq { "    - Instruction sequence\n" } else { "" }
        )
    };
    let expected = format!(
        "# AVX2 Intrinsics Used\n\n{}{}{}",
        entry("_mm256_and_si256", false),
        entry("_mm_aesenc_si128", true),
        entry("_mm_xor_si128", false)
    );
    assert_eq!(used.docs(), expected);
}

#[test]
fn aes_size_text() {
    assert_eq!(AesSize::Aes128.to_text(), "128");
    assert_eq!(AesSize::Aes256.to_text(), "256");
}

#[test]
fn key_schedule_plans() {
    let p = key_schedule_plan(AesSize::Aes128, true);
    assert_eq!(p.n_keys, 11);
    assert_eq!(p.from_key, 1);
    let rcs: Vec<u8> = p.steps.iter().map(|s| s.constant).collect();
    assert_eq!(rcs, vec![0x01, 0x02, 0x04, 0x08, 0x10, 0x20, 0x40, 0x80, 0x1B, 0x36]);
    assert_eq!(p.steps[0], KeyStep { index: 1, base: 0, assist: 0, constant: 0x01, lane: 3 });
    assert_eq!(p.steps[9], KeyStep { index: 10, base: 9, assist: 9, constant: 0x36, lane: 3 });
    assert!(p.decrypt_keys.is_none());
    let q = key_schedule_plan(AesSize::Aes256, false);
    assert_eq!(q.n_keys, 15);
    assert_eq!(q.from_key, 2);
    assert_eq!(q.steps.len(), 13);
    assert_eq!(q.steps[0], KeyStep { index: 2, base: 0, assist: 1, constant: 0x01, lane: 3 });
    assert_eq!(q.steps[1], KeyStep { index: 3, base: 1, assist: 2, constant: 0x00, lane: 2 });
    assert_eq!(q.steps[10], KeyStep { index: 12, base: 10, assist: 11, constant: 0x20, lane: 3 });
    assert_eq!(q.steps[11], KeyStep { index: 13, base: 11, assist: 12, constant: 0x00, lane: 2 });
    assert_eq!(q.steps[12], KeyStep { index: 14, base: 12, assist: 13, constant: 0x40, lane: 3 });
    let d = q.decrypt_keys.unwrap();
    assert_eq!(d.len(), 15);
    assert_eq!(d[0], DecryptKey { index: 14, inverse_mix_columns: false });
    assert_eq!(d[1], DecryptKey { index: 13, inverse_mix_columns: true });
    assert_eq!(d[14], DecryptKey { index: 0, inverse_mix_columns: false });
}

#[test]
fn aes_round_plans() {
    let p = aes_round_plan(AesSize::Aes128);
    assert_eq!(p.len(), 11);
    assert_eq!(p[0], RoundStep::AddKey(0));
    assert_eq!(p[5], RoundStep::Round(5));
    assert_eq!(p[10], RoundStep::LastRound(10));
}

#[test]
fn repeated_names_keep_the_last_entry() {
    let all: Vec<Intrinsic> = vec![
        intrinsic_from_xml(&xml_intrinsic("_mm_dup", &["AVX2"], Some(false))),
        intrinsic_from_xml(&xml_intrinsic("_mm_other", &["AVX2"], None)),
        intrinsic_from_xml(&xml_intrinsic("_mm_dup", &["AVX"], Some(true))),
    ];
    assert_eq!(find_intrinsic(&all, "_mm_dup"), Some(2));
    assert_eq!(find_intrinsic(&all, "_mm_other"), Some(1));
}
