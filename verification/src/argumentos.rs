//! Interpretação dos argumentos da linha de comando.

use vstd::prelude::*;
use vstd::string::*;
use crate::qr::NivelEc;
use crate::texto::{comeca_com, textos_iguais};

verus! {

/// Formatos de saída suportados.
#[derive(Debug, Clone, Copy, PartialEq, Eq, Structural)]
pub enum FormatoSaida {
    Terminal,
    Svg,
    Png,
}

/// Configuração do gerador de QR Code.
pub struct Configuracao {
    /// Dados a serem codificados (texto ou URL).
    pub dados: String,
    /// Formato de saída desejado.
    pub formato: FormatoSaida,
    /// Nível de correção de erros.
    pub nivel_ec: NivelEc,
    /// Tamanho de cada módulo em pixels.
    pub tamanho_modulo: u32,
    /// Largura da margem em módulos (quiet zone).
    pub margem: u32,
    /// Caminho do arquivo de saída, quando aplicável.
    pub caminho_saida: Option<String>,
    /// Caminho do arquivo de configuração PIX, quando o modo PIX está ativo.
    pub pix_config: Option<String>,
}

/// Por que os argumentos foram recusados.
pub enum ErroArgumentos {
    /// Menos de um argumento: o uso deve ser exibido.
    ArgumentosInsuficientes,
    /// Argumentos inválidos, com a mensagem de erro.
    Invalido(String),
}

/// Configuração em termos matemáticos: o estado da leitura dos argumentos.
pub struct EstadoArgumentos {
    pub dados: Seq<char>,
    pub formato: FormatoSaida,
    pub nivel_ec: NivelEc,
    pub tamanho_modulo: u32,
    pub margem: u32,
    pub caminho_saida: Option<Seq<char>>,
    pub pix_config: Option<Seq<char>>,
}

/// Erro da leitura dos argumentos em termos matemáticos.
pub enum FalhaArgumentos {
    ArgumentosInsuficientes,
    Invalido(Seq<char>),
}

impl Configuracao {
    /// A configuração vista como estado da leitura.
    pub open spec fn estado(&self) -> EstadoArgumentos {
        EstadoArgumentos {
            dados: self.dados@,
            formato: self.formato,
            nivel_ec: self.nivel_ec,
            tamanho_modulo: self.tamanho_modulo,
            margem: self.margem,
            caminho_saida: match self.caminho_saida {
                Some(c) => Some(c@),
                None => None,
            },
            pix_config: match self.pix_config {
                Some(c) => Some(c@),
                None => None,
            },
        }
    }
}

impl ErroArgumentos {
    /// O erro em termos matemáticos.
    pub open spec fn falha(&self) -> FalhaArgumentos {
        match self {
            ErroArgumentos::ArgumentosInsuficientes => FalhaArgumentos::ArgumentosInsuficientes,
            ErroArgumentos::Invalido(m) => FalhaArgumentos::Invalido(m@),
        }
    }

    /// A mensagem do erro.
    pub fn mensagem(&self) -> (r: String)
        ensures
            r@ == match self {
                ErroArgumentos::ArgumentosInsuficientes => MSG_ARGUMENTOS_INSUFICIENTES@,
                ErroArgumentos::Invalido(m) => m@,
            },
    {
        match self {
            ErroArgumentos::ArgumentosInsuficientes => MSG_ARGUMENTOS_INSUFICIENTES.to_owned(),
            ErroArgumentos::Invalido(m) => m.clone(),
        }
    }
}

/// Mensagem de erro quando faltam argumentos.
pub const MSG_ARGUMENTOS_INSUFICIENTES: &'static str = "Argumentos insuficientes";
/// Arquivo de configuração PIX padrão.
pub const PIX_CONFIG_PADRAO: &'static str = "config_pix.ron";
/// Arquivo de saída SVG padrão.
pub const SAIDA_SVG_PADRAO: &'static str = "qrcode.svg";
/// Arquivo de saída PNG padrão.
pub const SAIDA_PNG_PADRAO: &'static str = "qrcode.png";
/// Tamanho de módulo padrão, em pixels.
pub const TAMANHO_MODULO_PADRAO: u32 = 10;
/// Margem padrão, em módulos.
pub const MARGEM_PADRAO: u32 = 4;

pub const MSG_FALTA_FORMATO: &'static str = "Falta o valor para --formato";
pub const MSG_FALTA_EC: &'static str = "Falta o valor para --ec";
pub const MSG_FALTA_TAMANHO: &'static str = "Falta o valor para --tamanho";
pub const MSG_FALTA_MARGEM: &'static str = "Falta o valor para --margem";
pub const MSG_FALTA_SAIDA: &'static str = "Falta o valor para --saida";
pub const MSG_TAMANHO_INVALIDO: &'static str = "O valor de --tamanho deve ser um número inteiro positivo";
pub const MSG_MARGEM_INVALIDA: &'static str = "O valor de --margem deve ser um número inteiro positivo";
pub const MSG_FORMATO_DESCONHECIDO: &'static str = "Formato desconhecido: '";
pub const MSG_NIVEL_DESCONHECIDO: &'static str = "Nível EC desconhecido: '";
pub const MSG_OPCAO_DESCONHECIDA: &'static str = "Opção desconhecida: '";
pub const MSG_FIM_ASPAS: &'static str = "'";
pub const MSG_SEM_DADOS: &'static str = "Nenhum dado fornecido para codificar. Use --pix ou forneça um texto.";

// ── Números ─────────────────────────────────────────────────────────────────

/// Os caracteres são todos dígitos ASCII, e há ao menos um.
pub open spec fn so_digitos(s: Seq<char>) -> bool {
    s.len() > 0 && forall|i: int| 0 <= i < s.len() ==> '0' <= #[trigger] s[i] <= '9'
}

/// O número que os dígitos decimais escrevem.
pub open spec fn valor_decimal(s: Seq<char>) -> nat
    decreases s.len(),
{
    if s.len() == 0 {
        0
    } else {
        valor_decimal(s.drop_last()) * 10 + ((s.last() as nat) - ('0' as nat)) as nat
    }
}

/// O `u32` que o texto escreve: um `+` opcional seguido de dígitos decimais,
/// com valor até `u32::MAX`; `None` para qualquer outro texto.
pub open spec fn u32_de_texto(s: Seq<char>) -> Option<u32> {
    let d = if s.len() > 0 && s[0] == '+' { s.drop_first() } else { s };
    if so_digitos(d) && valor_decimal(d) <= u32::MAX {
        Some(valor_decimal(d) as u32)
    } else {
        None
    }
}

/// Lê um `u32` decimal.
///
/// Chama `str::parse::<u32>`. O contrato é o que a documentação de
/// `u32::from_str` descreve: um sinal `+` opcional seguido só de dígitos, sem
/// exceder `u32::MAX`.
#[verifier::external_body]
fn ler_u32(s: &str) -> (r: Option<u32>)
    ensures
        r == u32_de_texto(s@),
{
    s.parse::<u32>().ok()
}

// ── Leitura dos argumentos ──────────────────────────────────────────────────

/// O formato de saída que o texto nomeia.
pub open spec fn formato_de(v: Seq<char>) -> Option<FormatoSaida> {
    if v == "terminal"@ || v == "t"@ {
        Some(FormatoSaida::Terminal)
    } else if v == "svg"@ || v == "s"@ {
        Some(FormatoSaida::Svg)
    } else if v == "png"@ || v == "p"@ {
        Some(FormatoSaida::Png)
    } else {
        None
    }
}

/// O nível de correção de erros que o texto nomeia.
pub open spec fn nivel_de(v: Seq<char>) -> Option<NivelEc> {
    if v == "L"@ || v == "low"@ {
        Some(NivelEc::L)
    } else if v == "M"@ || v == "medium"@ {
        Some(NivelEc::M)
    } else if v == "Q"@ || v == "quartile"@ {
        Some(NivelEc::Q)
    } else if v == "H"@ || v == "high"@ {
        Some(NivelEc::H)
    } else {
        None
    }
}

/// O texto é o de uma opção (começa com `-`).
pub open spec fn eh_opcao(v: Seq<char>) -> bool {
    v.len() > 0 && v[0] == '-'
}

/// A mensagem `{inicio}{v}'`.
pub open spec fn entre_aspas(inicio: Seq<char>, v: Seq<char>) -> Seq<char> {
    inicio + v + MSG_FIM_ASPAS@
}

/// O estado antes de ler qualquer argumento: os valores padrão.
pub open spec fn estado_inicial() -> EstadoArgumentos {
    EstadoArgumentos {
        dados: Seq::empty(),
        formato: FormatoSaida::Terminal,
        nivel_ec: NivelEc::M,
        tamanho_modulo: TAMANHO_MODULO_PADRAO,
        margem: MARGEM_PADRAO,
        caminho_saida: None,
        pix_config: None,
    }
}

/// Lê os argumentos a partir da posição `i`, partindo do estado `e`.
pub open spec fn ler_argumentos(args: Seq<Seq<char>>, i: int, e: EstadoArgumentos) -> Result<EstadoArgumentos, Seq<char>>
    decreases args.len() - i,
{
    if i < 0 || i >= args.len() {
        Ok(e)
    } else {
        let a = args[i];
        let tem_valor = i + 1 < args.len();
        if a == "--formato"@ || a == "-f"@ {
            if !tem_valor {
                Err(MSG_FALTA_FORMATO@)
            } else {
                match formato_de(args[i + 1]) {
                    Some(f) => ler_argumentos(args, i + 2, EstadoArgumentos { formato: f, ..e }),
                    None => Err(entre_aspas(MSG_FORMATO_DESCONHECIDO@, args[i + 1])),
                }
            }
        } else if a == "--ec"@ || a == "-e"@ {
            if !tem_valor {
                Err(MSG_FALTA_EC@)
            } else {
                match nivel_de(args[i + 1]) {
                    Some(n) => ler_argumentos(args, i + 2, EstadoArgumentos { nivel_ec: n, ..e }),
                    None => Err(entre_aspas(MSG_NIVEL_DESCONHECIDO@, args[i + 1])),
                }
            }
        } else if a == "--tamanho"@ || a == "-t"@ {
            if !tem_valor {
                Err(MSG_FALTA_TAMANHO@)
            } else {
                match u32_de_texto(args[i + 1]) {
                    Some(t) => ler_argumentos(args, i + 2, EstadoArgumentos { tamanho_modulo: t, ..e }),
                    None => Err(MSG_TAMANHO_INVALIDO@),
                }
            }
        } else if a == "--margem"@ || a == "-m"@ {
            if !tem_valor {
                Err(MSG_FALTA_MARGEM@)
            } else {
                match u32_de_texto(args[i + 1]) {
                    Some(m) => ler_argumentos(args, i + 2, EstadoArgumentos { margem: m, ..e }),
                    None => Err(MSG_MARGEM_INVALIDA@),
                }
            }
        } else if a == "--saida"@ || a == "-o"@ {
            if !tem_valor {
                Err(MSG_FALTA_SAIDA@)
            } else {
                ler_argumentos(args, i + 2, EstadoArgumentos { caminho_saida: Some(args[i + 1]), ..e })
            }
        } else if a == "--pix"@ || a == "-p"@ {
            if tem_valor && !eh_opcao(args[i + 1]) {
                ler_argumentos(args, i + 2, EstadoArgumentos { pix_config: Some(args[i + 1]), ..e })
            } else {
                ler_argumentos(args, i + 1, EstadoArgumentos { pix_config: Some(PIX_CONFIG_PADRAO@), ..e })
            }
        } else if eh_opcao(a) {
            Err(entre_aspas(MSG_OPCAO_DESCONHECIDA@, a))
        } else {
            ler_argumentos(args, i + 1, EstadoArgumentos { dados: a, ..e })
        }
    }
}

/// O caminho de saída padrão de um formato que grava arquivo.
pub open spec fn saida_padrao(f: FormatoSaida) -> Seq<char> {
    match f {
        FormatoSaida::Svg => SAIDA_SVG_PADRAO@,
        _ => SAIDA_PNG_PADRAO@,
    }
}

/// A configuração que os argumentos (o primeiro é o nome do programa) dão,
/// ou a razão da recusa.
pub open spec fn configuracao_de(args: Seq<Seq<char>>) -> Result<EstadoArgumentos, FalhaArgumentos> {
    if args.len() < 2 {
        Err(FalhaArgumentos::ArgumentosInsuficientes)
    } else {
        match ler_argumentos(args, 1, estado_inicial()) {
            Err(m) => Err(FalhaArgumentos::Invalido(m)),
            Ok(e) => if e.dados.len() == 0 && e.pix_config is None {
                Err(FalhaArgumentos::Invalido(MSG_SEM_DADOS@))
            } else if e.caminho_saida is None && e.formato != FormatoSaida::Terminal {
                Ok(EstadoArgumentos { caminho_saida: Some(saida_padrao(e.formato)), ..e })
            } else {
                Ok(e)
            },
        }
    }
}

/// Os argumentos vistos como textos.
pub open spec fn textos(args: Seq<String>) -> Seq<Seq<char>> {
    args.map_values(|s: String| s@)
}

/// O formato de saída que o texto nomeia.
pub fn formato_de_texto(v: &str) -> (r: Option<FormatoSaida>)
    ensures
        r == formato_de(v@),
{
    if textos_iguais(v, "terminal") || textos_iguais(v, "t") {
        Some(FormatoSaida::Terminal)
    } else if textos_iguais(v, "svg") || textos_iguais(v, "s") {
        Some(FormatoSaida::Svg)
    } else if textos_iguais(v, "png") || textos_iguais(v, "p") {
        Some(FormatoSaida::Png)
    } else {
        None
    }
}

/// O nível de correção de erros que o texto nomeia.
pub fn nivel_de_texto(v: &str) -> (r: Option<NivelEc>)
    ensures
        r == nivel_de(v@),
{
    if textos_iguais(v, "L") || textos_iguais(v, "low") {
        Some(NivelEc::L)
    } else if textos_iguais(v, "M") || textos_iguais(v, "medium") {
        Some(NivelEc::M)
    } else if textos_iguais(v, "Q") || textos_iguais(v, "quartile") {
        Some(NivelEc::Q)
    } else if textos_iguais(v, "H") || textos_iguais(v, "high") {
        Some(NivelEc::H)
    } else {
        None
    }
}

/// A mensagem `{inicio}{v}'`.
fn mensagem_entre_aspas(inicio: &str, v: &str) -> (r: String)
    ensures
        r@ == entre_aspas(inicio@, v@),
{
    let mut m = inicio.to_owned();
    m.append(v);
    m.append(MSG_FIM_ASPAS);
    m
}

/// Interpreta os argumentos da linha de comando; o primeiro é o nome do
/// programa.
pub fn analisar_argumentos(args: &Vec<String>) -> (r: Result<Configuracao, ErroArgumentos>)
    ensures
        match r {
            Ok(c) => configuracao_de(textos(args@)) == Ok::<EstadoArgumentos, FalhaArgumentos>(c.estado()),
            Err(e) => configuracao_de(textos(args@)) == Err::<EstadoArgumentos, FalhaArgumentos>(e.falha()),
        },
{
    if args.len() < 2 {
        return Err(ErroArgumentos::ArgumentosInsuficientes);
    }
    let ghost a = textos(args@);
    let mut c = Configuracao {
        dados: String::new(),
        formato: FormatoSaida::Terminal,
        nivel_ec: NivelEc::M,
        tamanho_modulo: TAMANHO_MODULO_PADRAO,
        margem: MARGEM_PADRAO,
        caminho_saida: None,
        pix_config: None,
    };
    assert(c.estado() =~= estado_inicial());
    let mut i: usize = 1;
    while i < args.len()
        invariant
            a == textos(args@),
            a.len() == args.len(),
            1 <= i <= args.len(),
            ler_argumentos(a, 1, estado_inicial()) == ler_argumentos(a, i as int, c.estado()),
        decreases args.len() - i,
    {
        let arg = args[i].as_str();
        assert(a[i as int] == arg@);
        let tem_valor = i + 1 < args.len();
        if tem_valor {
            assert(a[i + 1] == args@[i + 1]@);
        }
        if textos_iguais(arg, "--formato") || textos_iguais(arg, "-f") {
            if !tem_valor {
                return Err(ErroArgumentos::Invalido(MSG_FALTA_FORMATO.to_owned()));
            }
            let v = args[i + 1].as_str();
            match formato_de_texto(v) {
                Some(f) => {
                    c.formato = f;
                },
                None => {
                    return Err(ErroArgumentos::Invalido(mensagem_entre_aspas(MSG_FORMATO_DESCONHECIDO, v)));
                },
            }
            i = i + 2;
        } else if textos_iguais(arg, "--ec") || textos_iguais(arg, "-e") {
            if !tem_valor {
                return Err(ErroArgumentos::Invalido(MSG_FALTA_EC.to_owned()));
            }
            let v = args[i + 1].as_str();
            match nivel_de_texto(v) {
                Some(n) => {
                    c.nivel_ec = n;
                },
                None => {
                    return Err(ErroArgumentos::Invalido(mensagem_entre_aspas(MSG_NIVEL_DESCONHECIDO, v)));
                },
            }
            i = i + 2;
        } else if textos_iguais(arg, "--tamanho") || textos_iguais(arg, "-t") {
            if !tem_valor {
                return Err(ErroArgumentos::Invalido(MSG_FALTA_TAMANHO.to_owned()));
            }
            match ler_u32(args[i + 1].as_str()) {
                Some(t) => {
                    c.tamanho_modulo = t;
                },
                None => {
                    return Err(ErroArgumentos::Invalido(MSG_TAMANHO_INVALIDO.to_owned()));
                },
            }
            i = i + 2;
        } else if textos_iguais(arg, "--margem") || textos_iguais(arg, "-m") {
            if !tem_valor {
                return Err(ErroArgumentos::Invalido(MSG_FALTA_MARGEM.to_owned()));
            }
            match ler_u32(args[i + 1].as_str()) {
                Some(m) => {
                    c.margem = m;
                },
                None => {
                    return Err(ErroArgumentos::Invalido(MSG_MARGEM_INVALIDA.to_owned()));
                },
            }
            i = i + 2;
        } else if textos_iguais(arg, "--saida") || textos_iguais(arg, "-o") {
            if !tem_valor {
                return Err(ErroArgumentos::Invalido(MSG_FALTA_SAIDA.to_owned()));
            }
            c.caminho_saida = Some(args[i + 1].clone());
            i = i + 2;
        } else if textos_iguais(arg, "--pix") || textos_iguais(arg, "-p") {
            if tem_valor && !comeca_com(args[i + 1].as_str(), '-') {
                c.pix_config = Some(args[i + 1].clone());
                i = i + 2;
            } else {
                c.pix_config = Some(PIX_CONFIG_PADRAO.to_owned());
                i = i + 1;
            }
        } else if comeca_com(arg, '-') {
            return Err(ErroArgumentos::Invalido(mensagem_entre_aspas(MSG_OPCAO_DESCONHECIDA, arg)));
        } else {
            c.dados = args[i].clone();
            i = i + 1;
        }
    }

    if c.dados.as_str().is_empty() && c.pix_config.is_none() {
        return Err(ErroArgumentos::Invalido(MSG_SEM_DADOS.to_owned()));
    }

    if c.caminho_saida.is_none() && c.formato != FormatoSaida::Terminal {
        let padrao = match c.formato {
            FormatoSaida::Svg => SAIDA_SVG_PADRAO.to_owned(),
            _ => SAIDA_PNG_PADRAO.to_owned(),
        };
        c.caminho_saida = Some(padrao);
    }
    Ok(c)
}

/// Uma configuração aceita tem dados a codificar ou o modo PIX, e tem um
/// caminho de saída sempre que o formato grava um arquivo (SVG ou PNG).
pub proof fn lema_configuracao_aceita(args: Seq<Seq<char>>)
    requires
        configuracao_de(args) is Ok,
    ensures
        ({
            let c = configuracao_de(args)->Ok_0;
            &&& c.dados.len() > 0 || c.pix_config is Some
            &&& c.formato != FormatoSaida::Terminal ==> c.caminho_saida is Some
        }),
{
}

/// Os nomes das opções são textos distintos.
proof fn lema_nomes_das_opcoes()
    ensures
        "-o"@ != "--formato"@, "-o"@ != "-f"@, "-o"@ != "--ec"@, "-o"@ != "-e"@,
        "-o"@ != "--tamanho"@, "-o"@ != "-t"@, "-o"@ != "--margem"@, "-o"@ != "-m"@,
        "--saida"@ != "--formato"@, "--saida"@ != "-f"@, "--saida"@ != "--ec"@,
        "--saida"@ != "-e"@, "--saida"@ != "--tamanho"@, "--saida"@ != "-t"@,
        "--saida"@ != "--margem"@, "--saida"@ != "-m"@,
        eh_opcao("-o"@), eh_opcao("--saida"@),
{
    reveal_strlit("-o");
    reveal_strlit("--saida");
    reveal_strlit("--formato");
    reveal_strlit("-f");
    reveal_strlit("--ec");
    reveal_strlit("-e");
    reveal_strlit("--tamanho");
    reveal_strlit("-t");
    reveal_strlit("--margem");
    reveal_strlit("-m");
    assert("-o"@ != "-f"@) by {
        assert("-o"@[1] != "-f"@[1]);
    }
    assert("-o"@ != "-e"@) by {
        assert("-o"@[1] != "-e"@[1]);
    }
    assert("-o"@ != "-t"@) by {
        assert("-o"@[1] != "-t"@[1]);
    }
    assert("-o"@ != "-m"@) by {
        assert("-o"@[1] != "-m"@[1]);
    }
    assert("--saida"@ != "-f"@) by {
        assert("--saida"@[1] != "-f"@[1]);
    }
    assert("--saida"@ != "-e"@) by {
        assert("--saida"@[1] != "-e"@[1]);
    }
    assert("--saida"@ != "--ec"@) by {
        assert("--saida"@[2] != "--ec"@[2]);
    }
    assert("--saida"@ != "--margem"@) by {
        assert("--saida"@[2] != "--margem"@[2]);
    }
}

/// Ler uma lista aceita seguida de uma opção e do seu valor é ler a lista e,
/// do estado a que se chega, ler a opção.
proof fn lema_leitura_estendida(a: Seq<Seq<char>>, b: Seq<Seq<char>>, i: int, e: EstadoArgumentos)
    requires
        1 <= i <= a.len(),
        ler_argumentos(a, i, e) is Ok,
        b.len() == 2,
        eh_opcao(b[0]),
    ensures
        ler_argumentos(a + b, i, e) == ler_argumentos(a + b, a.len() as int, ler_argumentos(a, i, e)->Ok_0),
    decreases a.len() - i,
{
    let ab = a + b;
    if i < a.len() {
        assert(ab[i] == a[i]);
        assert(ab[i + 1] == if i + 1 < a.len() { a[i + 1] } else { b[0] });
        let x = a[i];
        if x == "--formato"@ || x == "-f"@ {
            lema_leitura_estendida(a, b, i + 2, EstadoArgumentos { formato: formato_de(a[i + 1])->Some_0, ..e });
        } else if x == "--ec"@ || x == "-e"@ {
            lema_leitura_estendida(a, b, i + 2, EstadoArgumentos { nivel_ec: nivel_de(a[i + 1])->Some_0, ..e });
        } else if x == "--tamanho"@ || x == "-t"@ {
            lema_leitura_estendida(a, b, i + 2, EstadoArgumentos { tamanho_modulo: u32_de_texto(a[i + 1])->Some_0, ..e });
        } else if x == "--margem"@ || x == "-m"@ {
            lema_leitura_estendida(a, b, i + 2, EstadoArgumentos { margem: u32_de_texto(a[i + 1])->Some_0, ..e });
        } else if x == "--saida"@ || x == "-o"@ {
            lema_leitura_estendida(a, b, i + 2, EstadoArgumentos { caminho_saida: Some(a[i + 1]), ..e });
        } else if x == "--pix"@ || x == "-p"@ {
            if i + 1 < a.len() && !eh_opcao(a[i + 1]) {
                lema_leitura_estendida(a, b, i + 2, EstadoArgumentos { pix_config: Some(a[i + 1]), ..e });
            } else {
                lema_leitura_estendida(a, b, i + 1, EstadoArgumentos { pix_config: Some(PIX_CONFIG_PADRAO@), ..e });
            }
        } else if eh_opcao(x) {
        } else {
            lema_leitura_estendida(a, b, i + 1, EstadoArgumentos { dados: x, ..e });
        }
    }
}

/// O último `-o`/`--saida` vence: acrescentar `-o v` (ou `--saida v`) a uma
/// linha de comando aceita dá a mesma configuração com o caminho de saída `v`.
pub proof fn lema_ultima_saida_vence(args: Seq<Seq<char>>, opcao: Seq<char>, v: Seq<char>)
    requires
        configuracao_de(args) is Ok,
        opcao == "-o"@ || opcao == "--saida"@,
    ensures
        configuracao_de(args + seq![opcao, v]) == Ok::<EstadoArgumentos, FalhaArgumentos>(
            EstadoArgumentos { caminho_saida: Some(v), ..configuracao_de(args)->Ok_0 },
        ),
{
    lema_nomes_das_opcoes();
    let b = seq![opcao, v];
    let ab = args + b;
    let e = ler_argumentos(args, 1, estado_inicial())->Ok_0;
    lema_leitura_estendida(args, b, 1, estado_inicial());
    let n = args.len() as int;
    assert(ab[n] == opcao);
    assert(ab[n + 1] == v);
    assert(ler_argumentos(ab, n + 2, EstadoArgumentos { caminho_saida: Some(v), ..e })
        == Ok::<EstadoArgumentos, Seq<char>>(EstadoArgumentos { caminho_saida: Some(v), ..e }));
    assert(ler_argumentos(ab, n, e)
        == Ok::<EstadoArgumentos, Seq<char>>(EstadoArgumentos { caminho_saida: Some(v), ..e }));
}

/// Sem `-o` nem `--saida`, a leitura não muda o caminho de saída.
proof fn lema_leitura_sem_saida(a: Seq<Seq<char>>, i: int, e: EstadoArgumentos)
    requires
        1 <= i,
        ler_argumentos(a, i, e) is Ok,
        forall|j: int| i <= j < a.len() ==> a[j] != "-o"@ && a[j] != "--saida"@,
    ensures
        ler_argumentos(a, i, e)->Ok_0.caminho_saida == e.caminho_saida,
    decreases a.len() - i,
{
    if i < a.len() {
        let x = a[i];
        if x == "--formato"@ || x == "-f"@ {
            lema_leitura_sem_saida(a, i + 2, EstadoArgumentos { formato: formato_de(a[i + 1])->Some_0, ..e });
        } else if x == "--ec"@ || x == "-e"@ {
            lema_leitura_sem_saida(a, i + 2, EstadoArgumentos { nivel_ec: nivel_de(a[i + 1])->Some_0, ..e });
        } else if x == "--tamanho"@ || x == "-t"@ {
            lema_leitura_sem_saida(a, i + 2, EstadoArgumentos { tamanho_modulo: u32_de_texto(a[i + 1])->Some_0, ..e });
        } else if x == "--margem"@ || x == "-m"@ {
            lema_leitura_sem_saida(a, i + 2, EstadoArgumentos { margem: u32_de_texto(a[i + 1])->Some_0, ..e });
        } else if x == "--saida"@ || x == "-o"@ {
        } else if x == "--pix"@ || x == "-p"@ {
            if i + 1 < a.len() && !eh_opcao(a[i + 1]) {
                lema_leitura_sem_saida(a, i + 2, EstadoArgumentos { pix_config: Some(a[i + 1]), ..e });
            } else {
                lema_leitura_sem_saida(a, i + 1, EstadoArgumentos { pix_config: Some(PIX_CONFIG_PADRAO@), ..e });
            }
        } else if eh_opcao(x) {
        } else {
            lema_leitura_sem_saida(a, i + 1, EstadoArgumentos { dados: x, ..e });
        }
    }
}

/// Sem `-o` nem `--saida`, o caminho de saída é o padrão do formato:
/// nenhum no terminal, `qrcode.svg` em SVG, `qrcode.png` em PNG.
pub proof fn lema_saida_padrao(args: Seq<Seq<char>>)
    requires
        configuracao_de(args) is Ok,
        forall|j: int| 1 <= j < args.len() ==> args[j] != "-o"@ && args[j] != "--saida"@,
    ensures
        configuracao_de(args)->Ok_0.caminho_saida == match configuracao_de(args)->Ok_0.formato {
            FormatoSaida::Terminal => None,
            FormatoSaida::Svg => Some(SAIDA_SVG_PADRAO@),
            FormatoSaida::Png => Some(SAIDA_PNG_PADRAO@),
        },
{
    lema_leitura_sem_saida(args, 1, estado_inicial());
}

/// A opção pede sempre um valor: `-f`, `-e`, `-t`, `-m`, `-o` e os nomes longos.
pub open spec fn opcao_com_valor(a: Seq<char>) -> bool {
    a == "--formato"@ || a == "-f"@ || a == "--ec"@ || a == "-e"@ || a == "--tamanho"@
        || a == "-t"@ || a == "--margem"@ || a == "-m"@ || a == "--saida"@ || a == "-o"@
}

/// O valor do último `-o`/`--saida` lido como opção a partir da posição `i`
/// (não como valor de outra opção); `atual` se não houver nenhum.
pub open spec fn saida_pedida(args: Seq<Seq<char>>, i: int, atual: Option<Seq<char>>) -> Option<Seq<char>>
    decreases args.len() - i,
{
    if i < 0 || i >= args.len() {
        atual
    } else {
        let a = args[i];
        let tem_valor = i + 1 < args.len();
        if (a == "--saida"@ || a == "-o"@) && tem_valor {
            saida_pedida(args, i + 2, Some(args[i + 1]))
        } else if tem_valor && (opcao_com_valor(a) || ((a == "--pix"@ || a == "-p"@) && !eh_opcao(
            args[i + 1],
        ))) {
            saida_pedida(args, i + 2, atual)
        } else {
            saida_pedida(args, i + 1, atual)
        }
    }
}

/// `-p` e `--pix` não são opções que pedem sempre um valor.
proof fn lema_nomes_pix()
    ensures
        !opcao_com_valor("-p"@),
        !opcao_com_valor("--pix"@),
{
    reveal_strlit("-p");
    reveal_strlit("--pix");
    reveal_strlit("-o");
    reveal_strlit("--saida");
    reveal_strlit("--formato");
    reveal_strlit("-f");
    reveal_strlit("--ec");
    reveal_strlit("-e");
    reveal_strlit("--tamanho");
    reveal_strlit("-t");
    reveal_strlit("--margem");
    reveal_strlit("-m");
    assert("-p"@ != "-f"@) by {
        assert("-p"@[1] != "-f"@[1]);
    }
    assert("-p"@ != "-e"@) by {
        assert("-p"@[1] != "-e"@[1]);
    }
    assert("-p"@ != "-t"@) by {
        assert("-p"@[1] != "-t"@[1]);
    }
    assert("-p"@ != "-m"@) by {
        assert("-p"@[1] != "-m"@[1]);
    }
    assert("-p"@ != "-o"@) by {
        assert("-p"@[1] != "-o"@[1]);
    }
    assert("--pix"@.len() == 5);
    assert("--pix"@ != "--formato"@ && "--pix"@ != "-f"@ && "--pix"@ != "--ec"@
        && "--pix"@ != "-e"@ && "--pix"@ != "--tamanho"@ && "--pix"@ != "-t"@
        && "--pix"@ != "--margem"@ && "--pix"@ != "-m"@ && "--pix"@ != "--saida"@
        && "--pix"@ != "-o"@) by {
        assert("--formato"@.len() == 9 && "-f"@.len() == 2 && "--ec"@.len() == 4);
        assert("-e"@.len() == 2 && "--tamanho"@.len() == 9 && "-t"@.len() == 2);
        assert("--margem"@.len() == 8 && "-m"@.len() == 2 && "--saida"@.len() == 7);
        assert("-o"@.len() == 2);
    }
}

/// A leitura deixa como caminho de saída o valor do último `-o`/`--saida`
/// lido como opção, ou o que já havia.
proof fn lema_leitura_da_saida(a: Seq<Seq<char>>, i: int, e: EstadoArgumentos)
    requires
        1 <= i,
        ler_argumentos(a, i, e) is Ok,
    ensures
        ler_argumentos(a, i, e)->Ok_0.caminho_saida == saida_pedida(a, i, e.caminho_saida),
    decreases a.len() - i,
{
    lema_nomes_das_opcoes();
    lema_nomes_pix();
    if i < a.len() {
        let x = a[i];
        if x == "--formato"@ || x == "-f"@ {
            lema_leitura_da_saida(a, i + 2, EstadoArgumentos { formato: formato_de(a[i + 1])->Some_0, ..e });
        } else if x == "--ec"@ || x == "-e"@ {
            lema_leitura_da_saida(a, i + 2, EstadoArgumentos { nivel_ec: nivel_de(a[i + 1])->Some_0, ..e });
        } else if x == "--tamanho"@ || x == "-t"@ {
            lema_leitura_da_saida(a, i + 2, EstadoArgumentos { tamanho_modulo: u32_de_texto(a[i + 1])->Some_0, ..e });
        } else if x == "--margem"@ || x == "-m"@ {
            lema_leitura_da_saida(a, i + 2, EstadoArgumentos { margem: u32_de_texto(a[i + 1])->Some_0, ..e });
        } else if x == "--saida"@ || x == "-o"@ {
            lema_leitura_da_saida(a, i + 2, EstadoArgumentos { caminho_saida: Some(a[i + 1]), ..e });
        } else if x == "--pix"@ || x == "-p"@ {
            if i + 1 < a.len() && !eh_opcao(a[i + 1]) {
                lema_leitura_da_saida(a, i + 2, EstadoArgumentos { pix_config: Some(a[i + 1]), ..e });
            } else {
                lema_leitura_da_saida(a, i + 1, EstadoArgumentos { pix_config: Some(PIX_CONFIG_PADRAO@), ..e });
            }
        } else if eh_opcao(x) {
        } else {
            lema_leitura_da_saida(a, i + 1, EstadoArgumentos { dados: x, ..e });
        }
    }
}

/// O caminho de saída de uma configuração aceita é o valor do último
/// `-o`/`--saida` lido como opção; sem nenhum, o padrão do formato: nenhum no
/// terminal, `qrcode.svg` em SVG, `qrcode.png` em PNG.
pub proof fn lema_caminho_de_saida(args: Seq<Seq<char>>)
    requires
        configuracao_de(args) is Ok,
    ensures
        configuracao_de(args)->Ok_0.caminho_saida == match saida_pedida(args, 1, None) {
            Some(v) => Some(v),
            None => match configuracao_de(args)->Ok_0.formato {
                FormatoSaida::Terminal => None,
                FormatoSaida::Svg => Some(SAIDA_SVG_PADRAO@),
                FormatoSaida::Png => Some(SAIDA_PNG_PADRAO@),
            },
        },
{
    lema_leitura_da_saida(args, 1, estado_inicial());
}

/// Cada nome documentado de nível de correção de erros dá esse nível: `L` ou
/// `low` dão L, `M` ou `medium` dão M, `Q` ou `quartile` dão Q, `H` ou `high`
/// dão H; um texto que não é nenhum desses nomes não dá nível.
pub proof fn lema_nomes_dos_niveis(v: Seq<char>)
    ensures
        nivel_de("L"@) == Some(NivelEc::L),
        nivel_de("low"@) == Some(NivelEc::L),
        nivel_de("M"@) == Some(NivelEc::M),
        nivel_de("medium"@) == Some(NivelEc::M),
        nivel_de("Q"@) == Some(NivelEc::Q),
        nivel_de("quartile"@) == Some(NivelEc::Q),
        nivel_de("H"@) == Some(NivelEc::H),
        nivel_de("high"@) == Some(NivelEc::H),
        nivel_de(v) is Some <==> (v == "L"@ || v == "low"@ || v == "M"@ || v == "medium"@
            || v == "Q"@ || v == "quartile"@ || v == "H"@ || v == "high"@),
{
    reveal_strlit("L");
    reveal_strlit("low");
    reveal_strlit("M");
    reveal_strlit("medium");
    reveal_strlit("Q");
    reveal_strlit("quartile");
    reveal_strlit("H");
    reveal_strlit("high");
    assert("M"@ != "L"@) by {
        assert("M"@[0] != "L"@[0]);
    }
    assert("Q"@ != "L"@ && "Q"@ != "M"@) by {
        assert("Q"@[0] != "L"@[0] && "Q"@[0] != "M"@[0]);
    }
    assert("H"@ != "L"@ && "H"@ != "M"@ && "H"@ != "Q"@) by {
        assert("H"@[0] != "L"@[0] && "H"@[0] != "M"@[0] && "H"@[0] != "Q"@[0]);
    }
    assert("medium"@ != "low"@ && "quartile"@ != "low"@ && "quartile"@ != "medium"@) by {
        assert("medium"@.len() == 6 && "low"@.len() == 3 && "quartile"@.len() == 8);
    }
    assert("high"@ != "low"@) by {
        assert("high"@[0] != "low"@[0]);
    }
    assert("high"@ != "medium"@ && "high"@ != "quartile"@) by {
        assert("high"@.len() == 4 && "medium"@.len() == 6 && "quartile"@.len() == 8);
    }
}

/// Cada nome documentado de formato dá esse formato: `terminal` ou `t` dão o
/// terminal, `svg` ou `s` dão SVG, `png` ou `p` dão PNG; nenhum outro texto dá
/// formato.
pub proof fn lema_nomes_dos_formatos(v: Seq<char>)
    ensures
        formato_de("terminal"@) == Some(FormatoSaida::Terminal),
        formato_de("t"@) == Some(FormatoSaida::Terminal),
        formato_de("svg"@) == Some(FormatoSaida::Svg),
        formato_de("s"@) == Some(FormatoSaida::Svg),
        formato_de("png"@) == Some(FormatoSaida::Png),
        formato_de("p"@) == Some(FormatoSaida::Png),
        formato_de(v) is Some <==> (v == "terminal"@ || v == "t"@ || v == "svg"@ || v == "s"@
            || v == "png"@ || v == "p"@),
{
    reveal_strlit("terminal");
    reveal_strlit("t");
    reveal_strlit("svg");
    reveal_strlit("s");
    reveal_strlit("png");
    reveal_strlit("p");
    assert("svg"@ != "terminal"@) by {
        assert("svg"@.len() != "terminal"@.len());
    }
    assert("s"@ != "t"@) by {
        assert("s"@[0] != "t"@[0]);
    }
    assert("png"@ != "terminal"@ && "png"@ != "svg"@) by {
        assert("png"@.len() != "terminal"@.len() && "png"@[0] != "svg"@[0]);
    }
    assert("p"@ != "t"@ && "p"@ != "s"@) by {
        assert("p"@[0] != "t"@[0] && "p"@[0] != "s"@[0]);
    }
    assert("svg"@ != "t"@ && "png"@ != "t"@ && "png"@ != "s"@) by {
        assert("svg"@.len() == 3 && "png"@.len() == 3 && "t"@.len() == 1 && "s"@.len() == 1);
    }
}

/// Ler `texto -e nome` (ou `--ec nome`) dá uma configuração com o texto e o
/// nível que o nome documenta, e os demais valores padrão.
pub proof fn lema_opcao_de_nivel(programa: Seq<char>, texto: Seq<char>, opcao: Seq<char>, nome: Seq<char>)
    requires
        texto.len() > 0,
        !eh_opcao(texto),
        opcao == "-e"@ || opcao == "--ec"@,
        nivel_de(nome) is Some,
    ensures
        configuracao_de(seq![programa, texto, opcao, nome]) == Ok::<EstadoArgumentos, FalhaArgumentos>(
            EstadoArgumentos { dados: texto, nivel_ec: nivel_de(nome)->Some_0, ..estado_inicial() },
        ),
{
    reveal_strlit("-e");
    reveal_strlit("--ec");
    reveal_strlit("--formato");
    reveal_strlit("-f");
    reveal_strlit("--tamanho");
    reveal_strlit("-t");
    reveal_strlit("--margem");
    reveal_strlit("-m");
    reveal_strlit("--saida");
    reveal_strlit("-o");
    reveal_strlit("--pix");
    reveal_strlit("-p");
    let a = seq![programa, texto, opcao, nome];
    let e0 = estado_inicial();
    let e1 = EstadoArgumentos { dados: texto, ..e0 };
    let e2 = EstadoArgumentos { nivel_ec: nivel_de(nome)->Some_0, ..e1 };
    assert(texto != "--formato"@ && texto != "-f"@ && texto != "--ec"@ && texto != "-e"@
        && texto != "--tamanho"@ && texto != "-t"@ && texto != "--margem"@ && texto != "-m"@
        && texto != "--saida"@ && texto != "-o"@ && texto != "--pix"@ && texto != "-p"@);
    assert(opcao != "--formato"@ && opcao != "-f"@) by {
        assert("-e"@[1] != "-f"@[1]);
    }
    assert(ler_argumentos(a, 4, e2) == Ok::<EstadoArgumentos, Seq<char>>(e2));
    assert(ler_argumentos(a, 2, e1) == ler_argumentos(a, 4, e2));
    assert(ler_argumentos(a, 1, e0) == ler_argumentos(a, 2, e1));
}

/// O texto de uso do programa, exibido quando faltam argumentos.
pub const TEXTO_USO: &'static str = "Gerador de QR Code em Rust

Uso:
  qrcode-generator <texto> [opções]

Opções:
  -f, --formato <tipo>     Formato de saída: terminal, svg, png (padrão: terminal)
  -e, --ec <nível>         Correção de erros: L, M, Q, H (padrão: M)
  -t, --tamanho <pixels>   Tamanho de cada módulo em pixels (padrão: 10)
  -m, --margem <módulos>   Largura da margem/quiet zone (padrão: 4)
  -o, --saida <arquivo>    Caminho do arquivo de saída
  -p, --pix [arquivo]      Gera QR Code PIX (padrão: config_pix.ron)

Exemplos:
  qrcode-generator \"Olá, mundo!\"
  qrcode-generator \"https://rust-lang.org\" -f png -o rust.png
  qrcode-generator \"Contato\" -f svg -e H -t 8
  qrcode-generator \"dados\" -f png -t 20 -m 2 -o grande.png
  qrcode-generator --pix
  qrcode-generator --pix -f png -o pix.png
  qrcode-generator --pix meu_config.ron -f svg -o pagamento.svg";

} // verus!
