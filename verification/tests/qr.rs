use qrcode_generator::png::desenhar_png;
use qrcode_generator::qr::{
    gerar_qrcode, informacoes, lado_da_imagem, renderizar_terminal, truncar, NivelEc, VersaoQr,
};
use qrcode_generator::svg::montar_svg;

#[test]
fn truncar_textos() {
    assert_eq!(truncar("curto", 50), "curto");
    assert_eq!(truncar("abcdef", 3), "abc...");
    assert_eq!(truncar("ação", 3), "aç...");
}

#[test]
fn qrcode_de_exemplo() {
    let c = gerar_qrcode("Olá, Mundo!", NivelEc::M).unwrap();
    assert_eq!(c.versao(), VersaoQr::Normal(1));
    assert_eq!(c.largura(), 21);
    assert_eq!(c.modulos().len(), 21 * 21);
    // O padrão de localização do canto superior esquerdo.
    assert!(c.modulos()[0]);
    assert!(!c.modulos()[7]);
}

#[test]
fn dados_longos_demais() {
    let longo = "x".repeat(8000);
    assert_eq!(gerar_qrcode(&longo, NivelEc::H).err().unwrap(), "data too long");
}

#[test]
fn linhas_de_informacao() {
    let c = gerar_qrcode("Olá, Mundo!", NivelEc::M).unwrap();
    let linhas = informacoes(&c, "Olá, Mundo!", NivelEc::M);
    assert_eq!(
        linhas,
        vec![
            "--- Informações do QR Code ---".to_string(),
            "  Dados:              Olá, Mundo! (12 caracteres)".to_string(),
            "  Versão:             1".to_string(),
            "  Módulos:            21x21".to_string(),
            "  Correção de erros:  Medium (15%)".to_string(),
            String::new(),
        ]
    );
}

#[test]
fn desenho_no_terminal() {
    let c = gerar_qrcode("teste", NivelEc::L).unwrap();
    let texto = renderizar_terminal(&c);
    let lado = c.largura() + 8;
    let linhas: Vec<&str> = texto.split('\n').collect();
    assert_eq!(linhas.len(), (lado + 1) / 2);
    assert!(linhas.iter().all(|l| l.chars().count() == lado));
    // A zona de silêncio (clara) aparece como blocos cheios.
    assert!(linhas[0].chars().all(|ch| ch == '█'));
}

#[test]
fn documento_svg() {
    let c = gerar_qrcode("teste", NivelEc::L).unwrap();
    let svg = montar_svg(&c, 10, 4);
    let lado = (c.largura() + 8) * 10;
    assert!(svg.starts_with(&format!(
        "<?xml version=\"1.0\" encoding=\"UTF-8\"?>\n<svg xmlns=\"http://www.w3.org/2000/svg\" version=\"1.1\" width=\"{t}\" height=\"{t}\" viewBox=\"0 0 {t} {t}\">\n  <rect width=\"{t}\" height=\"{t}\" fill=\"white\"/>\n",
        t = lado
    )));
    assert!(svg.ends_with("</svg>\n"));
    let escuros = c.modulos().iter().filter(|&&m| m).count();
    assert_eq!(svg.matches("fill=\"black\"").count(), escuros);
    // O primeiro módulo é escuro: fica na margem.
    assert!(svg.contains("  <rect x=\"40\" y=\"40\" width=\"10\" height=\"10\" fill=\"black\"/>\n"));
}

#[test]
fn imagem_png() {
    let c = gerar_qrcode("teste", NivelEc::L).unwrap();
    let tam = 3u32;
    let margem = 2u32;
    let lado = lado_da_imagem(&c, tam, margem).unwrap();
    assert_eq!(lado as usize, (c.largura() + 4) * 3);
    let bytes = desenhar_png(&c, tam, margem).em_bytes();
    assert_eq!(bytes.len(), (lado * lado) as usize);
    let l = c.largura();
    for py in 0..lado as usize {
        for px in 0..lado as usize {
            let (mx, my) = (px / 3, py / 3);
            let escuro = mx >= 2 && my >= 2 && mx < 2 + l && my < 2 + l
                && c.modulos()[(my - 2) * l + (mx - 2)];
            assert_eq!(bytes[py * lado as usize + px], if escuro { 0 } else { 255 });
        }
    }
}

#[test]
fn imagem_vazia_com_modulo_zero() {
    let c = gerar_qrcode("teste", NivelEc::L).unwrap();
    assert_eq!(lado_da_imagem(&c, 0, 4), Some(0));
    assert!(desenhar_png(&c, 0, 4).em_bytes().is_empty());
}

#[test]
fn lado_que_transborda() {
    let c = gerar_qrcode("teste", NivelEc::L).unwrap();
    assert_eq!(lado_da_imagem(&c, 1, u32::MAX), None);
    assert_eq!(lado_da_imagem(&c, u32::MAX, 1), None);
    assert_eq!(lado_da_imagem(&c, 10, 4), Some((c.largura() as u32 + 8) * 10));
}

#[test]
fn desenho_no_terminal_exato() {
    let c = gerar_qrcode("teste", NivelEc::L).unwrap();
    let texto = renderizar_terminal(&c);
    let l = c.largura();
    let z = 4;
    let lado = l + 2 * z;
    let pixel = |x: usize, y: usize| -> usize {
        if x >= z && x < z + l && y >= z && y < z + l && c.modulos()[(y - z) * l + (x - z)] { 0 } else { 1 }
    };
    let blocos = [' ', '\u{2584}', '\u{2580}', '\u{2588}'];
    let mut linhas = Vec::new();
    for par in 0..(lado + 1) / 2 {
        let y = 2 * par;
        let linha: String = (0..lado)
            .map(|x| blocos[2 * pixel(x, y) + if y + 1 < lado { pixel(x, y + 1) } else { 0 }])
            .collect();
        linhas.push(linha);
    }
    assert_eq!(texto, linhas.join("\n"));
}

#[test]
fn svg_margem_branca() {
    let c = gerar_qrcode("teste", NivelEc::L).unwrap();
    let (t, m) = (7u32, 3u32);
    let svg = montar_svg(&c, t, m);
    let l = c.largura() as u32;
    let mut n = 0;
    for linha in svg.lines().filter(|l| l.contains("fill=\"black\"")) {
        let num = |chave: &str| -> u32 {
            let i = linha.find(chave).unwrap() + chave.len();
            linha[i..].split('"').next().unwrap().parse().unwrap()
        };
        let (x, y) = (num(" x=\""), num(" y=\""));
        assert!(x >= m * t && x + t <= (m + l) * t);
        assert!(y >= m * t && y + t <= (m + l) * t);
        n += 1;
    }
    assert_eq!(n, c.modulos().iter().filter(|&&b| b).count());
}
