use qrcode_generator::argumentos::{
    analisar_argumentos, Configuracao, ErroArgumentos, FormatoSaida, TEXTO_USO,
};
use qrcode_generator::qr::NivelEc;

fn args(v: &[&str]) -> Vec<String> {
    v.iter().map(|s| s.to_string()).collect()
}

fn ok(v: &[&str]) -> Configuracao {
    match analisar_argumentos(&args(v)) {
        Ok(c) => c,
        Err(e) => panic!("recusado: {}", e.mensagem()),
    }
}

fn erro(v: &[&str]) -> String {
    match analisar_argumentos(&args(v)) {
        Ok(_) => panic!("aceito"),
        Err(e) => e.mensagem(),
    }
}

#[test]
fn sem_argumentos_pede_uso() {
    let r = analisar_argumentos(&args(&["prog"]));
    assert!(matches!(r, Err(ErroArgumentos::ArgumentosInsuficientes)));
    assert_eq!(erro(&["prog"]), "Argumentos insuficientes");
    assert!(TEXTO_USO.starts_with("Gerador de QR Code em Rust"));
}

#[test]
fn valores_padrao() {
    let c = ok(&["prog", "Olá, Mundo!"]);
    assert_eq!(c.dados, "Olá, Mundo!");
    assert_eq!(c.formato, FormatoSaida::Terminal);
    assert_eq!(c.nivel_ec, NivelEc::M);
    assert_eq!(c.tamanho_modulo, 10);
    assert_eq!(c.margem, 4);
    assert_eq!(c.caminho_saida, None);
    assert_eq!(c.pix_config, None);
}

#[test]
fn todas_as_opcoes() {
    let c = ok(&["prog", "dados", "-f", "png", "-e", "H", "-t", "20", "-m", "2", "-o", "grande.png"]);
    assert_eq!(c.dados, "dados");
    assert_eq!(c.formato, FormatoSaida::Png);
    assert_eq!(c.nivel_ec, NivelEc::H);
    assert_eq!(c.tamanho_modulo, 20);
    assert_eq!(c.margem, 2);
    assert_eq!(c.caminho_saida.as_deref(), Some("grande.png"));
    let c = ok(&["prog", "--formato", "s", "--ec", "quartile", "--tamanho", "+8", "--margem", "0", "x"]);
    assert_eq!(c.formato, FormatoSaida::Svg);
    assert_eq!(c.nivel_ec, NivelEc::Q);
    assert_eq!(c.tamanho_modulo, 8);
    assert_eq!(c.margem, 0);
}

#[test]
fn caminho_padrao_por_formato() {
    assert_eq!(ok(&["prog", "x", "-f", "svg"]).caminho_saida.as_deref(), Some("qrcode.svg"));
    assert_eq!(ok(&["prog", "x", "-f", "p"]).caminho_saida.as_deref(), Some("qrcode.png"));
    assert_eq!(ok(&["prog", "x", "-f", "terminal"]).caminho_saida, None);
}

#[test]
fn modo_pix() {
    let c = ok(&["prog", "--pix"]);
    assert_eq!(c.pix_config.as_deref(), Some("config_pix.ron"));
    assert_eq!(c.dados, "");
    let c = ok(&["prog", "-p", "meu_config.ron", "-f", "svg"]);
    assert_eq!(c.pix_config.as_deref(), Some("meu_config.ron"));
    let c = ok(&["prog", "-p", "-f", "png"]);
    assert_eq!(c.pix_config.as_deref(), Some("config_pix.ron"));
    assert_eq!(c.formato, FormatoSaida::Png);
}

#[test]
fn o_ultimo_texto_vence() {
    assert_eq!(ok(&["prog", "a", "b"]).dados, "b");
}

#[test]
fn erros_de_argumentos() {
    assert_eq!(erro(&["prog", "x", "-f"]), "Falta o valor para --formato");
    assert_eq!(erro(&["prog", "x", "-e"]), "Falta o valor para --ec");
    assert_eq!(erro(&["prog", "x", "-t"]), "Falta o valor para --tamanho");
    assert_eq!(erro(&["prog", "x", "-m"]), "Falta o valor para --margem");
    assert_eq!(erro(&["prog", "x", "-o"]), "Falta o valor para --saida");
    assert_eq!(erro(&["prog", "x", "-f", "jpg"]), "Formato desconhecido: 'jpg'");
    assert_eq!(erro(&["prog", "x", "-e", "X"]), "Nível EC desconhecido: 'X'");
    assert_eq!(
        erro(&["prog", "x", "-t", "-3"]),
        "O valor de --tamanho deve ser um número inteiro positivo"
    );
    assert_eq!(
        erro(&["prog", "x", "-m", "4294967296"]),
        "O valor de --margem deve ser um número inteiro positivo"
    );
    assert_eq!(erro(&["prog", "-z"]), "Opção desconhecida: '-z'");
    assert_eq!(
        erro(&["prog", "-f", "png"]),
        "Nenhum dado fornecido para codificar. Use --pix ou forneça um texto."
    );
}

#[test]
fn a_ultima_saida_vence() {
    let c = ok(&["prog", "x", "-f", "svg", "-o", "a.svg", "--saida", "b.svg"]);
    assert_eq!(c.caminho_saida.as_deref(), Some("b.svg"));
    // Um "-o" lido como valor de outro "-o" não é opção.
    let c = ok(&["prog", "x", "-o", "-o", "y"]);
    assert_eq!(c.caminho_saida.as_deref(), Some("-o"));
    assert_eq!(c.dados, "y");
}

#[test]
fn saida_e_o_ultimo_o_lido_como_opcao() {
    // O segundo "-o" é o valor do primeiro; "x" vira o texto a codificar.
    let c = ok(&["prog", "texto", "-o", "-o", "x"]);
    assert_eq!(c.caminho_saida.as_deref(), Some("-o"));
    assert_eq!(c.dados, "x");
    // "-p" seguido de uma opção usa o arquivo padrão; o "-o" é lido como opção.
    let c = ok(&["prog", "-p", "-o", "x.svg", "-f", "svg"]);
    assert_eq!(c.pix_config.as_deref(), Some("config_pix.ron"));
    assert_eq!(c.caminho_saida.as_deref(), Some("x.svg"));
    // Vários "-o"/"--saida" entre outras opções: vale o último.
    let c = ok(&["prog", "t", "-o", "a.svg", "-f", "svg", "--saida", "b.svg", "-m", "2"]);
    assert_eq!(c.caminho_saida.as_deref(), Some("b.svg"));
    // Sem "-o", o padrão do formato.
    let c = ok(&["prog", "t", "-f", "png"]);
    assert_eq!(c.caminho_saida.as_deref(), Some("qrcode.png"));
}
