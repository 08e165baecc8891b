//! O QR Code: codificação, informações e renderização no terminal.

use vstd::prelude::*;
use vstd::string::*;
use vstd::utf8::*;
use qrcode::render::unicode::Dense1x2;
use qrcode::render::Renderer;
use qrcode::{Color, EcLevel, QrCode, Version};
use crate::texto::{corte_valido, cortar_em_bytes, decimal, escrever_decimal, prefixo_bytes};

verus! {

/// Nível de correção de erros.
#[derive(Debug, Clone, Copy, PartialEq, Eq, Structural)]
pub enum NivelEc {
    /// Baixo (7%).
    L,
    /// Médio (15%).
    M,
    /// Quartil (25%).
    Q,
    /// Alto (30%).
    H,
}

/// Versão de um QR Code.
#[derive(Debug, Clone, Copy, PartialEq, Eq, Structural)]
pub enum VersaoQr {
    /// QR Code normal, versões 1 a 40.
    Normal(i16),
    /// Micro QR Code, versões 1 a 4.
    Micro(i16),
}

/// Um QR Code como matriz de módulos.
pub struct CodigoQr {
    largura: usize,
    modulos: Vec<bool>,
    versao: VersaoQr,
}

/// Um QR Code em termos matemáticos: largura, módulos linha a linha (`true`
/// é escuro) e versão.
pub struct SimboloQr {
    pub largura: nat,
    pub modulos: Seq<bool>,
    pub versao: VersaoQr,
}

/// Um símbolo bem formado: uma versão normal `v` entre 1 e 40, largura
/// `4v + 17` e largura × largura módulos.
pub open spec fn bem_formado(s: SimboloQr) -> bool {
    &&& s.modulos.len() == s.largura * s.largura
    &&& s.versao matches VersaoQr::Normal(v) && 1 <= v <= 40 && s.largura == 4 * v + 17
}

impl View for CodigoQr {
    type V = SimboloQr;

    closed spec fn view(&self) -> SimboloQr {
        SimboloQr { largura: self.largura as nat, modulos: self.modulos@, versao: self.versao }
    }
}

impl CodigoQr {
    #[verifier::type_invariant]
    closed spec fn invariante(&self) -> bool {
        bem_formado(self@)
    }

    /// Número de módulos por lado, sem a zona de silêncio.
    pub fn largura(&self) -> (r: usize)
        ensures
            r == self@.largura,
            bem_formado(self@),
    {
        proof {
            use_type_invariant(self);
        }
        self.largura
    }

    /// Os módulos, linha a linha; `true` é escuro.
    pub fn modulos(&self) -> (r: &Vec<bool>)
        ensures
            r@ == self@.modulos,
            bem_formado(self@),
    {
        proof {
            use_type_invariant(self);
        }
        &self.modulos
    }

    /// A versão do QR Code.
    pub fn versao(&self) -> (r: VersaoQr)
        ensures
            r == self@.versao,
            bem_formado(self@),
    {
        proof {
            use_type_invariant(self);
        }
        self.versao
    }
}

/// O símbolo que `QrCode::with_error_correction_level` produz para os bytes
/// e o nível dados (largura, módulos, versão), ou a mensagem do seu erro.
pub uninterp spec fn simbolo_qr(dados: Seq<u8>, nivel: NivelEc) -> Result<(usize, Seq<bool>, VersaoQr), Seq<char>>;

/// Codifica os bytes num QR Code com o nível de correção de erros dado.
///
/// Chama `QrCode::with_error_correction_level` de qrcode e lê do código
/// gerado `width`, `to_colors` e `version`; o erro é convertido na sua
/// mensagem. O resultado é nomeado (`simbolo_qr`). Do código-fonte de qrcode
/// vêm os fatos afirmados sobre um código gerado: a versão é normal, de 1 a
/// 40 (`find_min_version`), a largura é `4v + 17` (`Version::width`) e há
/// largura × largura módulos (`Canvas::new`).
#[verifier::external_body]
fn codificar_qr(dados: &[u8], nivel: NivelEc) -> (r: Result<(usize, Vec<bool>, VersaoQr), String>)
    ensures
        match r {
            Ok((largura, modulos, versao)) => {
                &&& simbolo_qr(dados@, nivel) == Ok::<(usize, Seq<bool>, VersaoQr), Seq<char>>((largura, modulos@, versao))
                &&& bem_formado(SimboloQr { largura: largura as nat, modulos: modulos@, versao })
            },
            Err(m) => simbolo_qr(dados@, nivel) == Err::<(usize, Seq<bool>, VersaoQr), Seq<char>>(m@),
        },
{
    let ec = match nivel { NivelEc::L => EcLevel::L, NivelEc::M => EcLevel::M, NivelEc::Q => EcLevel::Q, NivelEc::H => EcLevel::H };
    match QrCode::with_error_correction_level(dados, ec) {
        Ok(q) => {
            let versao = match q.version() { Version::Normal(v) => VersaoQr::Normal(v), Version::Micro(v) => VersaoQr::Micro(v) };
            Ok((q.width(), q.to_colors().into_iter().map(|c| c == Color::Dark).collect(), versao))
        },
        Err(e) => Err(e.to_string()),
    }
}

/// Gera o QR Code dos dados (os seus bytes UTF-8) com o nível de correção de
/// erros dado; erro com a mensagem de qrcode quando não é possível (por
/// exemplo, dados longos demais).
pub fn gerar_qrcode(dados: &str, nivel: NivelEc) -> (r: Result<CodigoQr, String>)
    ensures
        match r {
            Ok(c) => simbolo_qr(encode_utf8(dados@), nivel) == Ok::<(usize, Seq<bool>, VersaoQr), Seq<char>>((c@.largura as usize, c@.modulos, c@.versao)),
            Err(m) => simbolo_qr(encode_utf8(dados@), nivel) == Err::<(usize, Seq<bool>, VersaoQr), Seq<char>>(m@),
        },
{
    match codificar_qr(dados.as_bytes(), nivel) {
        Ok((largura, modulos, versao)) => Ok(CodigoQr { largura, modulos, versao }),
        Err(m) => Err(m),
    }
}

// ── Informações ─────────────────────────────────────────────────────────────

/// Reticências acrescentadas a um texto truncado.
pub const RETICENCIAS: &'static str = "...";
/// Limite de bytes dos dados exibidos nas informações.
pub const LIMITE_DADOS_INFO: usize = 50;

/// O texto cortado em `limite` bytes, com reticências se foi cortado.
pub open spec fn truncado(s: Seq<char>, limite: nat) -> Seq<char> {
    if encode_utf8(s).len() <= limite {
        s
    } else {
        prefixo_bytes(s, limite) + RETICENCIAS@
    }
}

/// Trunca o texto em `limite` bytes, acrescentando reticências se exceder o
/// limite.
pub fn truncar(texto: &str, limite: usize) -> (r: String)
    requires
        corte_valido(texto@, limite as nat),
    ensures
        r@ == truncado(texto@, limite as nat),
{
    if texto.as_bytes().len() <= limite {
        texto.to_owned()
    } else {
        let mut r = cortar_em_bytes(texto, limite);
        r.append(RETICENCIAS);
        r
    }
}

/// Diz se `truncar(texto, limite)` pode ser calculado sem cortar um
/// caractere ao meio.
pub fn pode_truncar(texto: &str, limite: usize) -> (r: bool)
    ensures
        r == corte_valido(texto@, limite as nat),
{
    texto.as_bytes().len() <= limite || texto.is_char_boundary(limite)
}

/// O número escrito em decimal, com `-` se for negativo.
pub open spec fn decimal_com_sinal(v: int) -> Seq<char> {
    if v < 0 {
        seq!['-'] + decimal((-v) as nat)
    } else {
        decimal(v as nat)
    }
}

/// A versão como é exibida: o número, precedido de `M` no Micro QR Code.
pub open spec fn texto_versao(v: VersaoQr) -> Seq<char> {
    match v {
        VersaoQr::Normal(n) => decimal_com_sinal(n as int),
        VersaoQr::Micro(n) => seq!['M'] + decimal_com_sinal(n as int),
    }
}

/// A descrição de um nível de correção de erros.
pub open spec fn descricao_nivel(n: NivelEc) -> Seq<char> {
    match n {
        NivelEc::L => NIVEL_L@,
        NivelEc::M => NIVEL_M@,
        NivelEc::Q => NIVEL_Q@,
        NivelEc::H => NIVEL_H@,
    }
}

pub const NIVEL_L: &'static str = "Low (7%)";
pub const NIVEL_M: &'static str = "Medium (15%)";
pub const NIVEL_Q: &'static str = "Quartile (25%)";
pub const NIVEL_H: &'static str = "High (30%)";

pub const INFO_TITULO: &'static str = "--- Informações do QR Code ---";
pub const INFO_DADOS: &'static str = "  Dados:              ";
pub const INFO_ABRE: &'static str = " (";
pub const INFO_CARACTERES: &'static str = " caracteres)";
pub const INFO_VERSAO: &'static str = "  Versão:             ";
pub const INFO_MODULOS: &'static str = "  Módulos:            ";
pub const INFO_X: &'static str = "x";
pub const INFO_CORRECAO: &'static str = "  Correção de erros:  ";

/// As linhas das informações de um QR Code: título, dados (truncados em 50
/// bytes) com o seu tamanho em bytes, versão, módulos por lado, nível de
/// correção de erros, e uma linha vazia.
pub open spec fn linhas_info(s: SimboloQr, dados: Seq<char>, nivel: NivelEc) -> Seq<Seq<char>> {
    seq![
        INFO_TITULO@,
        INFO_DADOS@ + truncado(dados, LIMITE_DADOS_INFO as nat) + INFO_ABRE@
            + decimal(encode_utf8(dados).len()) + INFO_CARACTERES@,
        INFO_VERSAO@ + texto_versao(s.versao),
        INFO_MODULOS@ + decimal(s.largura) + INFO_X@ + decimal(s.largura),
        INFO_CORRECAO@ + descricao_nivel(nivel),
        Seq::empty(),
    ]
}

/// Escreve a versão como é exibida.
fn escrever_versao(saida: &mut String, v: VersaoQr)
    ensures
        final(saida)@ == old(saida)@ + texto_versao(v),
{
    let n = match v {
        VersaoQr::Normal(n) => n,
        VersaoQr::Micro(n) => {
            saida.append("M");
            n
        },
    };
    proof {
        reveal_strlit("M");
    }
    if n < 0 {
        saida.append("-");
        proof {
            reveal_strlit("-");
        }
        let m = -(n as i32);
        escrever_decimal(saida, m as u64);
    } else {
        escrever_decimal(saida, n as u64);
    }
    assert(final(saida)@ =~= old(saida)@ + texto_versao(v));
}

/// A descrição de um nível de correção de erros.
pub fn descrever_nivel(n: NivelEc) -> (r: &'static str)
    ensures
        r@ == descricao_nivel(n),
{
    match n {
        NivelEc::L => NIVEL_L,
        NivelEc::M => NIVEL_M,
        NivelEc::Q => NIVEL_Q,
        NivelEc::H => NIVEL_H,
    }
}

/// A descrição de cada nível nomeia esse nível, com a fração de correção:
/// L é "Low (7%)", M é "Medium (15%)", Q é "Quartile (25%)" e H é
/// "High (30%)"; níveis distintos têm descrições distintas, e a quinta linha
/// das informações traz a descrição do nível pedido.
pub proof fn lema_descricao_dos_niveis(a: NivelEc, b: NivelEc, s: SimboloQr, dados: Seq<char>)
    ensures
        descricao_nivel(NivelEc::L) == "Low (7%)"@,
        descricao_nivel(NivelEc::M) == "Medium (15%)"@,
        descricao_nivel(NivelEc::Q) == "Quartile (25%)"@,
        descricao_nivel(NivelEc::H) == "High (30%)"@,
        a != b ==> descricao_nivel(a) != descricao_nivel(b),
        linhas_info(s, dados, a)[4] == "  Correção de erros:  "@ + descricao_nivel(a),
{
    reveal_strlit("Low (7%)");
    reveal_strlit("Medium (15%)");
    reveal_strlit("Quartile (25%)");
    reveal_strlit("High (30%)");
    if a != b {
        assert(descricao_nivel(a)[0] != descricao_nivel(b)[0]);
    }
}

/// Monta as linhas de informações sobre o QR Code gerado.
pub fn informacoes(codigo: &CodigoQr, dados: &str, nivel: NivelEc) -> (r: Vec<String>)
    requires
        corte_valido(dados@, LIMITE_DADOS_INFO as nat),
    ensures
        r@.map_values(|l: String| l@) == linhas_info(codigo@, dados@, nivel),
{
    let mut linhas: Vec<String> = Vec::new();
    linhas.push(INFO_TITULO.to_owned());

    let mut l = INFO_DADOS.to_owned();
    let t = truncar(dados, LIMITE_DADOS_INFO);
    l.append(t.as_str());
    l.append(INFO_ABRE);
    escrever_decimal(&mut l, dados.as_bytes().len() as u64);
    l.append(INFO_CARACTERES);
    linhas.push(l);

    let mut l = INFO_VERSAO.to_owned();
    escrever_versao(&mut l, codigo.versao());
    linhas.push(l);

    let largura = codigo.largura();
    let mut l = INFO_MODULOS.to_owned();
    escrever_decimal(&mut l, largura as u64);
    l.append(INFO_X);
    escrever_decimal(&mut l, largura as u64);
    linhas.push(l);

    let mut l = INFO_CORRECAO.to_owned();
    l.append(descrever_nivel(nivel));
    linhas.push(l);

    linhas.push(String::new());
    assert(linhas@.map_values(|l: String| l@) =~= linhas_info(codigo@, dados@, nivel));
    linhas
}

// ── Terminal ────────────────────────────────────────────────────────────────

/// Um pixel do desenho no terminal, numa grade de lado `largura + 2 × zona`:
/// 0 num módulo escuro, 1 num módulo claro ou na zona de silêncio. As cores
/// são as que `renderizar_terminal` pede ao renderizador: a cor escura do
/// `Dense1x2` (valor 1) para os módulos claros e a clara (valor 0) para os
/// escuros.
pub open spec fn pixel_terminal(modulos: Seq<bool>, largura: nat, zona: nat, x: int, y: int) -> nat {
    if zona <= x < zona + largura && zona <= y < zona + largura
        && modulos[(y - zona) * largura + (x - zona)] {
        0
    } else {
        1
    }
}

/// O caractere de dois pixels empilhados, de código `cima × 2 + baixo`:
/// espaço, meio bloco de baixo, meio bloco de cima, bloco cheio.
pub open spec fn bloco(codigo: nat) -> char {
    if codigo == 0 {
        ' '
    } else if codigo == 1 {
        '\u{2584}'
    } else if codigo == 2 {
        '\u{2580}'
    } else {
        '\u{2588}'
    }
}

/// A linha `par` do desenho: as linhas de pixels `2 × par` (em cima) e
/// `2 × par + 1` (em baixo; ausente, como 0, depois da última).
pub open spec fn linha_terminal(modulos: Seq<bool>, largura: nat, zona: nat, par: nat) -> Seq<char> {
    let lado = largura + 2 * zona;
    let y = 2 * par;
    Seq::new(
        lado,
        |x: int| {
            let cima = pixel_terminal(modulos, largura, zona, x, y as int);
            let baixo = if y + 1 < lado {
                pixel_terminal(modulos, largura, zona, x, (y + 1) as int)
            } else {
                0
            };
            bloco(2 * cima + baixo)
        },
    )
}

/// As `k` primeiras linhas do desenho, separadas por `\n`.
pub open spec fn linhas_terminal(modulos: Seq<bool>, largura: nat, zona: nat, k: nat) -> Seq<char>
    decreases k,
{
    if k == 0 {
        Seq::empty()
    } else if k == 1 {
        linha_terminal(modulos, largura, zona, 0)
    } else {
        linhas_terminal(modulos, largura, zona, (k - 1) as nat) + seq!['\n']
            + linha_terminal(modulos, largura, zona, (k - 1) as nat)
    }
}

/// O desenho dos módulos (largura × largura, `true` escuro) com uma zona de
/// silêncio de `zona` módulos: uma linha de texto por par de linhas de
/// pixels.
pub open spec fn desenho_unicode(modulos: Seq<bool>, largura: nat, zona: nat) -> Seq<char> {
    linhas_terminal(modulos, largura, zona, (largura + 2 * zona + 1) / 2)
}

/// Desenha os módulos com caracteres Unicode, dois pixels por caractere.
///
/// Chama `Renderer::<Dense1x2>::new`, `dark_color(Dense1x2::Light)`,
/// `light_color(Dense1x2::Dark)`, `quiet_zone(true)` e `build` de qrcode. O
/// contrato é o que `Renderer::build` e `Canvas1x2::into_image` fazem: uma
/// grade de pixels de 1 × 1 por módulo com a zona de silêncio, valendo 0 nos
/// módulos escuros e 1 no resto, lida aos pares de linhas e escrita com a
/// tabela de quatro blocos, linhas unidas por `\n`. `Renderer::new` entra em
/// pânico se não houver largura × largura módulos; as contas em `u32` de
/// `build` exigem que a área da grade caiba em `u32`; e uma grade vazia faz
/// `chunks_exact(0)` entrar em pânico.
#[verifier::external_body]
fn desenhar_unicode(modulos: &Vec<bool>, largura: usize, zona: u32) -> (r: String)
    requires
        modulos@.len() == largura * largura,
        largura + 2 * zona > 0,
        (largura + 2 * zona) * (largura + 2 * zona) <= u32::MAX,
    ensures
        r@ == desenho_unicode(modulos@, largura as nat, zona as nat),
{
    let cores: Vec<Color> = modulos.iter().map(|&m| if m { Color::Dark } else { Color::Light }).collect();
    Renderer::<Dense1x2>::new(&cores, largura, zona)
        .dark_color(Dense1x2::Light)
        .light_color(Dense1x2::Dark)
        .quiet_zone(true)
        .build()
}

/// A largura da zona de silêncio de uma versão: 4 módulos no QR Code
/// normal, 2 no Micro QR Code.
pub open spec fn zona_silenciosa(v: VersaoQr) -> nat {
    match v {
        VersaoQr::Normal(_) => 4,
        VersaoQr::Micro(_) => 2,
    }
}

/// Desenha o QR Code para o terminal com caracteres Unicode, com a zona de
/// silêncio e as cores invertidas (módulos escuros em claro).
pub fn renderizar_terminal(codigo: &CodigoQr) -> (r: String)
    ensures
        r@ == desenho_unicode(codigo@.modulos, codigo@.largura, zona_silenciosa(codigo@.versao)),
{
    let largura = codigo.largura();
    let zona: u32 = match codigo.versao() {
        VersaoQr::Normal(_) => 4,
        VersaoQr::Micro(_) => 2,
    };
    assert((largura + 2 * zona) * (largura + 2 * zona) <= 185 * 185) by (nonlinear_arith)
        requires
            largura <= 177,
            zona <= 4,
    ;
    desenhar_unicode(codigo.modulos(), largura, zona)
}

// ── Dimensões das imagens ───────────────────────────────────────────────────

/// O lado, em pixels, da imagem de um QR Code de `largura` módulos com margem
/// de `margem` módulos de cada lado e `tamanho` pixels por módulo.
pub open spec fn lado_imagem(largura: nat, margem: nat, tamanho: nat) -> nat {
    (largura + margem * 2) * tamanho
}

/// As contas em `u32` do lado da imagem não transbordam.
pub open spec fn dimensoes_cabem(largura: nat, margem: nat, tamanho: nat) -> bool {
    &&& margem * 2 <= u32::MAX
    &&& largura + margem * 2 <= u32::MAX
    &&& lado_imagem(largura, margem, tamanho) <= u32::MAX
}

/// O lado, em pixels, da imagem do QR Code, ou `None` se a conta em `u32`
/// transbordar.
pub fn lado_da_imagem(codigo: &CodigoQr, tamanho_modulo: u32, margem: u32) -> (r: Option<u32>)
    ensures
        r matches Some(t) ==> t == lado_imagem(codigo@.largura, margem as nat, tamanho_modulo as nat),
        r is Some <==> dimensoes_cabem(codigo@.largura, margem as nat, tamanho_modulo as nat),
{
    let largura = codigo.largura() as u32;
    let dobro = match margem.checked_mul(2) {
        Some(d) => d,
        None => return None,
    };
    let lado = match largura.checked_add(dobro) {
        Some(l) => l,
        None => return None,
    };
    lado.checked_mul(tamanho_modulo)
}

} // verus!
