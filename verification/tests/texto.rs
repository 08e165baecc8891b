use qrcode_generator::texto::{comeca_com, cortar_em_bytes, textos_iguais};

#[test]
fn comparacao_de_textos() {
    assert!(textos_iguais("abc", "abc"));
    assert!(!textos_iguais("abc", "abd"));
    assert!(!textos_iguais("abc", "ab"));
    assert!(comeca_com("-f", '-'));
    assert!(!comeca_com("", '-'));
}

#[test]
fn corte_em_bytes() {
    assert_eq!(cortar_em_bytes("abcdef", 4), "abcd");
    assert_eq!(cortar_em_bytes("abc", 4), "abc");
    assert_eq!(cortar_em_bytes("çç", 2), "ç");
}
