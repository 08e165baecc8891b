use qrcode_generator::pix::{
    calcular_crc16, gerar_payload_pix, montar_additional_data, montar_campo_tlv,
    montar_merchant_account, normalizar_texto, pode_normalizar, remover_acentos,
    tentar_gerar_payload_pix, DadosPix, ValorPix,
};

fn valor(v: f64) -> ValorPix {
    ValorPix { positivo: v > 0.0, texto: format!("{:.2}", v) }
}

fn dados(chave: &str, nome: &str, cidade: &str, v: Option<f64>) -> DadosPix {
    DadosPix {
        chave: chave.to_string(),
        nome: nome.to_string(),
        cidade: cidade.to_string(),
        valor: v.map(valor),
    }
}

#[test]
fn test_montar_campo_tlv() {
    assert_eq!(montar_campo_tlv("00", "01"), "000201");
    assert_eq!(montar_campo_tlv("58", "BR"), "5802BR");
    assert_eq!(montar_campo_tlv("53", "986"), "5303986");
}

#[test]
fn test_montar_campo_tlv_tamanho_dois_digitos() {
    let valor = "br.gov.bcb.pix"; // 14 chars
    let resultado = montar_campo_tlv("00", valor);
    assert_eq!(resultado, "0014br.gov.bcb.pix");
}

#[test]
fn test_montar_merchant_account() {
    let resultado = montar_merchant_account("recebedor@email.com");
    assert!(resultado.starts_with("26"));
    assert!(resultado.contains("0014br.gov.bcb.pix"));
    assert!(resultado.contains("0119recebedor@email.com"));
}

#[test]
fn test_montar_additional_data() {
    let resultado = montar_additional_data("***");
    assert_eq!(resultado, "62070503***");
}

#[test]
fn test_calcular_crc16() {
    let payload = "00020126330014br.gov.bcb.pix0111123456789005204000053039865802BR5913FULANO DE TAL6015BELO HORIZONTE62070503***6304";
    let crc = calcular_crc16(payload);
    assert_eq!(crc.len(), 4);
    assert!(crc.chars().all(|c| c.is_ascii_hexdigit()));
}

#[test]
fn test_normalizar_texto_acentos() {
    assert_eq!(normalizar_texto("São Paulo", 15), "SAO PAULO");
    assert_eq!(normalizar_texto("José María", 25), "JOSE MARIA");
    assert_eq!(normalizar_texto("Ação", 10), "ACAO");
}

#[test]
fn test_normalizar_texto_truncamento() {
    assert_eq!(normalizar_texto("BELO HORIZONTE", 15), "BELO HORIZONTE");
    assert_eq!(
        normalizar_texto("CIDADE MUITO LONGA DEMAIS", 15),
        "CIDADE MUITO LO"
    );
}

#[test]
fn test_normalizar_texto_nome_maximo() {
    let nome_longo = "ABCDEFGHIJKLMNOPQRSTUVWXYZ1234"; // 30 chars
    let resultado = normalizar_texto(nome_longo, 25);
    assert_eq!(resultado.len(), 25);
}

#[test]
fn test_gerar_payload_sem_valor() {
    let d = dados("recebedor@email.com", "FULANO DE TAL", "BELO HORIZONTE", None);
    let payload = gerar_payload_pix(&d).unwrap();
    assert!(payload.starts_with("000201"));
    assert!(payload.contains("010211"));
    assert!(payload.contains("br.gov.bcb.pix"));
    assert!(payload.contains("recebedor@email.com"));
    assert!(!payload.contains("54"));
    assert!(payload.len() > 4);
    let crc_section = &payload[payload.len() - 8..payload.len() - 4];
    assert_eq!(crc_section, "6304");
}

#[test]
fn test_gerar_payload_com_valor() {
    let d = dados("12345678900", "FULANO DE TAL", "SAO PAULO", Some(150.50));
    let payload = gerar_payload_pix(&d).unwrap();
    assert!(payload.contains("010212"));
    assert!(payload.contains("5406150.50"));
}

#[test]
fn test_gerar_payload_chave_vazia() {
    let d = dados("", "FULANO", "SP", None);
    let resultado = gerar_payload_pix(&d);
    assert!(resultado.is_err());
    assert!(resultado.unwrap_err().contains("chave PIX"));
}

#[test]
fn test_gerar_payload_nome_vazio() {
    let d = dados("chave@test.com", "", "SP", None);
    let resultado = gerar_payload_pix(&d);
    assert!(resultado.is_err());
}

#[test]
fn test_gerar_payload_normaliza_nome_e_cidade() {
    let d = dados("chave@test.com", "José da Conceição", "São Paulo", None);
    let payload = gerar_payload_pix(&d).unwrap();
    assert!(payload.contains("JOSE DA CONCEICAO"));
    assert!(payload.contains("SAO PAULO"));
}

#[test]
fn test_payload_crc_integrity() {
    let d = dados("test@test.com", "TESTE", "CURITIBA", Some(10.00));
    let payload = gerar_payload_pix(&d).unwrap();
    let sem_crc = &payload[..payload.len() - 4];
    let crc_no_payload = &payload[payload.len() - 4..];
    let crc_recalculado = calcular_crc16(sem_crc);
    assert_eq!(crc_no_payload, crc_recalculado);
}

// ── Casos próprios ──────────────────────────────────────────────────────────

#[test]
fn crc16_valor_de_verificacao() {
    // Valor de verificação do CRC-16/CCITT-FALSE.
    assert_eq!(calcular_crc16("123456789"), "29B1");
    assert_eq!(calcular_crc16(""), "FFFF");
}

fn crc16_classico(dados: &[u8]) -> u16 {
    let mut c: u16 = 0xFFFF;
    for &b in dados {
        c ^= (b as u16) << 8;
        for _ in 0..8 {
            c = if c & 0x8000 != 0 { (c << 1) ^ 0x1021 } else { c << 1 };
        }
    }
    c
}

#[test]
fn crc16_igual_a_forma_classica_byte_a_byte() {
    for t in ["", "A", "123456789", "São Paulo", "00020126580014br.gov.bcb.pix6304"] {
        assert_eq!(calcular_crc16(t), format!("{:04X}", crc16_classico(t.as_bytes())));
    }
}

#[test]
fn crc16_sobre_bytes_utf8() {
    // "é" são dois bytes (C3 A9); o CRC é sobre eles, não sobre o caractere.
    assert_ne!(calcular_crc16("é"), calcular_crc16("e"));
    assert_eq!(calcular_crc16("é").len(), 4);
}

#[test]
fn campo_tlv_conta_bytes() {
    // "ç" ocupa dois bytes.
    assert_eq!(montar_campo_tlv("59", "ç"), "5902ç");
    assert_eq!(montar_campo_tlv("01", ""), "0100");
    let longo = "a".repeat(123);
    assert_eq!(montar_campo_tlv("01", &longo), format!("01123{}", longo));
}

#[test]
fn remove_todos_os_acentos() {
    assert_eq!(remover_acentos("áàâãä ÁÀÂÃÄ éèêë ÉÈÊË"), "aaaaa AAAAA eeee EEEE");
    assert_eq!(remover_acentos("íìîï ÍÌÎÏ óòôõö ÓÒÔÕÖ"), "iiii IIII ooooo OOOOO");
    assert_eq!(remover_acentos("úùûü ÚÙÛÜ çÇ ñÑ ß"), "uuuu UUUU cC nN ß");
}

#[test]
fn remove_acentos_de_todo_o_bloco_latino() {
    assert_eq!(remover_acentos("Ýmir ýÿŷ ŶŸ"), "Ymir yyy YY");
    assert_eq!(remover_acentos("åÅ āĀ ăĂ ąĄ"), "aA aA aA aA");
    assert_eq!(remover_acentos("ćĉċč ďĎ ēĕėęě ĝğġģ ĥ"), "cccc dD eeeee gggg h");
    assert_eq!(remover_acentos("ĩīĭįİ ĵ ķ ĺļľ ńņň ōŏő ŕŗř"), "iiiiI j k lll nnn ooo rrr");
    assert_eq!(remover_acentos("śŝşš ţť ũūŭůűų ŵ źżž"), "ssss tt uuuuuu w zzz");
    // Letras sem decomposição em letra ASCII ficam como estão.
    assert_eq!(remover_acentos("ßøŁđı"), "ßøŁđı");
}

#[test]
fn normalizacao_remove_acentos_de_outras_linguas() {
    assert_eq!(normalizar_texto("Ýmir", 25), "YMIR");
    assert_eq!(normalizar_texto("Škoda Ålesund", 25), "SKODA ALESUND");
    assert_eq!(normalizar_texto("Çağrı Őrség", 25), "CAGRI ORSEG");
    assert_eq!(normalizar_texto("Łódź", 15), "ŁODZ");
    let r = normalizar_texto("Žižkov Dvořák Ţară", 25);
    assert_eq!(r, "ZIZKOV DVORAK TARA");
    assert!(r.is_ascii());
}

#[test]
fn normalizacao_corta_em_bytes() {
    // "ß" vira "SS" em maiúsculas.
    assert_eq!(normalizar_texto("straße", 25), "STRASSE");
    // Corte exatamente na fronteira de um caractere de dois bytes.
    assert_eq!(normalizar_texto("øøø", 4), "ØØ");
    assert_eq!(normalizar_texto("aøøøøøøøøøøøøø", 25).len(), 25);
}

#[test]
fn normalizacao_que_partiria_um_caractere() {
    assert!(pode_normalizar("øøø", 4));
    assert!(!pode_normalizar("øøø", 3));
    let d = dados("chave", "ØØØØØØØØØØØØØ", "SP", None);
    assert!(tentar_gerar_payload_pix(&d).is_none());
    // Com chave vazia a normalização nem acontece.
    let d = dados("", "ØØØØØØØØØØØØØ", "SP", None);
    assert_eq!(
        tentar_gerar_payload_pix(&d).unwrap().unwrap_err(),
        "A chave PIX não pode estar vazia"
    );
}

#[test]
fn erros_do_payload() {
    let d = dados("chave@test.com", "", "SP", None);
    assert_eq!(gerar_payload_pix(&d).unwrap_err(), "O nome do recebedor não pode estar vazio");
    let d = dados("chave@test.com", "FULANO", "", None);
    assert_eq!(gerar_payload_pix(&d).unwrap_err(), "A cidade não pode estar vazia");
}

#[test]
fn payload_completo() {
    let d = dados("123e4567-e12b-12d1-a456-426655440000", "Fulano de Tal", "Belo Horizonte", None);
    let payload = gerar_payload_pix(&d).unwrap();
    let corpo = "00020101021126580014br.gov.bcb.pix0136123e4567-e12b-12d1-a456-4266554400005204000053039865802BR5913FULANO DE TAL6014BELO HORIZONTE62070503***6304";
    assert!(payload.starts_with(corpo));
    assert_eq!(payload.len(), corpo.len() + 4);
    assert_eq!(&payload[corpo.len()..], calcular_crc16(corpo));
}

#[test]
fn valor_nao_positivo_mantem_metodo_sem_campo() {
    let d = dados("chave", "FULANO", "SP", Some(0.0));
    let payload = gerar_payload_pix(&d).unwrap();
    assert!(payload.starts_with("000201010212"));
    assert!(!payload.contains("5404"));
    let d = dados("chave", "FULANO", "SP", None);
    let payload = gerar_payload_pix(&d).unwrap();
    assert!(payload.starts_with("000201010211"));
}

fn ler_tlv(b: &[u8]) -> Vec<(String, String)> {
    let mut campos = Vec::new();
    let mut i = 0;
    while i < b.len() {
        let tag = String::from_utf8(b[i..i + 2].to_vec()).unwrap();
        let n: usize = std::str::from_utf8(&b[i + 2..i + 4]).unwrap().parse().unwrap();
        let valor = String::from_utf8(b[i + 4..i + 4 + n].to_vec()).unwrap();
        campos.push((tag, valor));
        i += 4 + n;
    }
    campos
}

#[test]
fn payload_se_divide_nos_campos() {
    let d = dados("recebedor@email.com", "José da Conceição", "São Paulo", Some(150.50));
    let payload = gerar_payload_pix(&d).unwrap();
    let campos = ler_tlv(payload.as_bytes());
    let tags: Vec<&str> = campos.iter().map(|(t, _)| t.as_str()).collect();
    assert_eq!(tags, vec!["00", "01", "26", "52", "53", "54", "58", "59", "60", "62", "63"]);
    assert_eq!(campos[1].1, "12");
    assert_eq!(campos[5].1, "150.50");
    assert_eq!(campos[7].1, "JOSE DA CONCEICAO");
    assert_eq!(campos[8].1, "SAO PAULO");
    let sub26 = ler_tlv(campos[2].1.as_bytes());
    assert_eq!(sub26, vec![("00".to_string(), "br.gov.bcb.pix".to_string()), ("01".to_string(), "recebedor@email.com".to_string())]);
    assert_eq!(ler_tlv(campos[9].1.as_bytes()), vec![("05".to_string(), "***".to_string())]);
    assert_eq!(campos[10].1.len(), 4);
}

#[test]
fn normalizacao_de_texto_latino() {
    let t = "Conceição dos Índios Ñandú";
    let r = normalizar_texto(t, 25);
    assert!(r.is_ascii());
    assert!(!r.chars().any(|c| c.is_ascii_lowercase()));
    assert_eq!(r.len(), 25.min(t.chars().count()));
    // Idempotente.
    assert_eq!(normalizar_texto(&r, 25), r);
    // Com limite menor, um prefixo.
    let curto = normalizar_texto(t, 10);
    assert!(r.starts_with(&curto));
    assert_eq!(normalizar_texto(&r, 10), curto);
}

#[test]
fn ordem_dos_erros_com_texto_latino() {
    let d = dados("", "", "", None);
    assert_eq!(gerar_payload_pix(&d).unwrap_err(), "A chave PIX não pode estar vazia");
    let d = dados("k", "", "", None);
    assert_eq!(gerar_payload_pix(&d).unwrap_err(), "O nome do recebedor não pode estar vazio");
    let d = dados("k", "Ana", "", None);
    assert_eq!(gerar_payload_pix(&d).unwrap_err(), "A cidade não pode estar vazia");
    let d = dados("k", "Ana", "Ó", None);
    assert!(gerar_payload_pix(&d).is_ok());
}
