//! Payload EMV/BRCode de um QR Code PIX estático.

use vstd::prelude::*;
use vstd::string::*;
use vstd::utf8::*;
use crc_any::CRC;
use crate::texto::{acrescentar_char, decimal, lema_bytes_do_prefixo, lema_prefixo_do_texto, lema_utf8_concatenacao, corte_valido, cortar_em_bytes, prefixo_bytes, char_digito, digito, decimal_dois_digitos, escrever_decimal_dois_digitos, eh_hex, valor_hex, lema_digito_hexadecimal};

verus! {

// ── Etiquetas EMV/BRCode ────────────────────────────────────────────────────

/// Payload Format Indicator — sempre "01".
pub const TAG_PAYLOAD_FORMAT: &'static str = "00";
/// Point of Initiation Method — "11" estático, "12" com valor fixo.
pub const TAG_INITIATION_METHOD: &'static str = "01";
/// Merchant Account Information do PIX.
pub const TAG_MERCHANT_ACCOUNT: &'static str = "26";
/// Merchant Category Code.
pub const TAG_CATEGORY_CODE: &'static str = "52";
/// Transaction Currency.
pub const TAG_CURRENCY: &'static str = "53";
/// Transaction Amount.
pub const TAG_AMOUNT: &'static str = "54";
/// Country Code.
pub const TAG_COUNTRY: &'static str = "58";
/// Merchant Name.
pub const TAG_MERCHANT_NAME: &'static str = "59";
/// Merchant City.
pub const TAG_MERCHANT_CITY: &'static str = "60";
/// Additional Data Field Template.
pub const TAG_ADDITIONAL_DATA: &'static str = "62";
/// CRC-16.
pub const TAG_CRC: &'static str = "63";

/// GUI dentro de Merchant Account Information.
pub const SUBTAG_GUI: &'static str = "00";
/// Chave PIX dentro de Merchant Account Information.
pub const SUBTAG_CHAVE: &'static str = "01";
/// Reference Label (txid) dentro de Additional Data.
pub const SUBTAG_TXID: &'static str = "05";

/// Identificador GUI do PIX registrado no BACEN.
pub const PIX_GUI: &'static str = "br.gov.bcb.pix";
/// Código ISO 4217 do Real.
pub const CURRENCY_BRL: &'static str = "986";
/// MCC genérico.
pub const MCC_GENERIC: &'static str = "0000";
/// Código do Brasil.
pub const COUNTRY_BR: &'static str = "BR";
/// txid padrão de QR Codes estáticos.
pub const DEFAULT_TXID: &'static str = "***";

/// Valor do Payload Format Indicator.
pub const FORMATO_PAYLOAD: &'static str = "01";
/// Método de iniciação sem valor fixo.
pub const METODO_ESTATICO: &'static str = "11";
/// Método de iniciação com valor fixo.
pub const METODO_COM_VALOR: &'static str = "12";
/// Tamanho declarado do campo de CRC.
pub const TAMANHO_CRC: &'static str = "04";

/// Limite de bytes do nome do recebedor.
pub const MAX_NOME: usize = 25;
/// Limite de bytes da cidade do recebedor.
pub const MAX_CIDADE: usize = 15;

/// Erro quando a chave PIX é vazia.
pub const ERRO_CHAVE_VAZIA: &'static str = "A chave PIX não pode estar vazia";
/// Erro quando o nome normalizado é vazio.
pub const ERRO_NOME_VAZIO: &'static str = "O nome do recebedor não pode estar vazio";
/// Erro quando a cidade normalizada é vazia.
pub const ERRO_CIDADE_VAZIA: &'static str = "A cidade não pode estar vazia";

// ── Dados ───────────────────────────────────────────────────────────────────

/// Valor de uma transação PIX como o payload o usa: se é positivo e o seu
/// texto com duas casas decimais.
#[derive(Debug)]
pub struct ValorPix {
    /// O valor é maior que zero.
    pub positivo: bool,
    /// O valor formatado com exatamente duas casas decimais.
    pub texto: String,
}

/// Dados de um pagamento PIX.
#[derive(Debug)]
pub struct DadosPix {
    /// Chave PIX (e-mail, CPF, telefone ou chave aleatória).
    pub chave: String,
    /// Nome do recebedor.
    pub nome: String,
    /// Cidade do recebedor.
    pub cidade: String,
    /// Valor fixo opcional da transação.
    pub valor: Option<ValorPix>,
}

// ── TLV ─────────────────────────────────────────────────────────────────────

/// Um campo TLV: etiqueta, tamanho do valor em bytes UTF-8 com ao menos dois
/// dígitos, valor.
pub open spec fn campo_tlv(tag: Seq<char>, valor: Seq<char>) -> Seq<char> {
    tag + decimal_dois_digitos(encode_utf8(valor).len()) + valor
}

/// O campo Merchant Account Information (etiqueta 26) de uma chave PIX.
pub open spec fn campo_merchant_account(chave: Seq<char>) -> Seq<char> {
    campo_tlv(
        TAG_MERCHANT_ACCOUNT@,
        campo_tlv(SUBTAG_GUI@, PIX_GUI@) + campo_tlv(SUBTAG_CHAVE@, chave),
    )
}

/// O campo Additional Data Field Template (etiqueta 62) de um txid.
pub open spec fn campo_additional_data(txid: Seq<char>) -> Seq<char> {
    campo_tlv(TAG_ADDITIONAL_DATA@, campo_tlv(SUBTAG_TXID@, txid))
}

/// Monta um campo TLV (Tag-Length-Value): `{tag}{tamanho:02}{valor}`, em que
/// o tamanho é o de `valor` em bytes.
pub fn montar_campo_tlv(tag: &str, valor: &str) -> (r: String)
    ensures
        r@ == campo_tlv(tag@, valor@),
{
    let mut r = tag.to_owned();
    let tamanho = valor.as_bytes().len();
    escrever_decimal_dois_digitos(&mut r, tamanho as u64);
    r.append(valor);
    r
}

/// Monta o campo Merchant Account Information (etiqueta 26) com o GUI do PIX
/// e a chave.
pub fn montar_merchant_account(chave: &str) -> (r: String)
    ensures
        r@ == campo_merchant_account(chave@),
{
    let gui = montar_campo_tlv(SUBTAG_GUI, PIX_GUI);
    let chave_campo = montar_campo_tlv(SUBTAG_CHAVE, chave);
    let mut conteudo = gui;
    conteudo.append(chave_campo.as_str());
    montar_campo_tlv(TAG_MERCHANT_ACCOUNT, conteudo.as_str())
}

/// Monta o campo Additional Data Field Template (etiqueta 62) com o txid.
pub fn montar_additional_data(txid: &str) -> (r: String)
    ensures
        r@ == campo_additional_data(txid@),
{
    let txid_campo = montar_campo_tlv(SUBTAG_TXID, txid);
    montar_campo_tlv(TAG_ADDITIONAL_DATA, txid_campo.as_str())
}

// ── Normalização de texto ───────────────────────────────────────────────────

/// A letra base de uma letra latina acentuada de U+00C0 a U+017F: cada letra
/// que o Unicode decompõe numa letra ASCII seguida de marcas diacríticas vira
/// essa letra, na mesma caixa; os demais caracteres ficam iguais.
pub open spec fn letra_base(c: char) -> char {
    if c == 'À' || c == 'Á' || c == 'Â' || c == 'Ã' || c == 'Ä' || c == 'Å' || c == 'Ā' || c == 'Ă' || c == 'Ą' { 'A' }
    else if c == 'à' || c == 'á' || c == 'â' || c == 'ã' || c == 'ä' || c == 'å' || c == 'ā' || c == 'ă' || c == 'ą' { 'a' }
    else if c == 'Ç' || c == 'Ć' || c == 'Ĉ' || c == 'Ċ' || c == 'Č' { 'C' }
    else if c == 'ç' || c == 'ć' || c == 'ĉ' || c == 'ċ' || c == 'č' { 'c' }
    else if c == 'Ď' { 'D' }
    else if c == 'ď' { 'd' }
    else if c == 'È' || c == 'É' || c == 'Ê' || c == 'Ë' || c == 'Ē' || c == 'Ĕ' || c == 'Ė' || c == 'Ę' || c == 'Ě' { 'E' }
    else if c == 'è' || c == 'é' || c == 'ê' || c == 'ë' || c == 'ē' || c == 'ĕ' || c == 'ė' || c == 'ę' || c == 'ě' { 'e' }
    else if c == 'Ĝ' || c == 'Ğ' || c == 'Ġ' || c == 'Ģ' { 'G' }
    else if c == 'ĝ' || c == 'ğ' || c == 'ġ' || c == 'ģ' { 'g' }
    else if c == 'Ĥ' { 'H' }
    else if c == 'ĥ' { 'h' }
    else if c == 'Ì' || c == 'Í' || c == 'Î' || c == 'Ï' || c == 'Ĩ' || c == 'Ī' || c == 'Ĭ' || c == 'Į' || c == 'İ' { 'I' }
    else if c == 'ì' || c == 'í' || c == 'î' || c == 'ï' || c == 'ĩ' || c == 'ī' || c == 'ĭ' || c == 'į' { 'i' }
    else if c == 'Ĵ' { 'J' }
    else if c == 'ĵ' { 'j' }
    else if c == 'Ķ' { 'K' }
    else if c == 'ķ' { 'k' }
    else if c == 'Ĺ' || c == 'Ļ' || c == 'Ľ' { 'L' }
    else if c == 'ĺ' || c == 'ļ' || c == 'ľ' { 'l' }
    else if c == 'Ñ' || c == 'Ń' || c == 'Ņ' || c == 'Ň' { 'N' }
    else if c == 'ñ' || c == 'ń' || c == 'ņ' || c == 'ň' { 'n' }
    else if c == 'Ò' || c == 'Ó' || c == 'Ô' || c == 'Õ' || c == 'Ö' || c == 'Ō' || c == 'Ŏ' || c == 'Ő' { 'O' }
    else if c == 'ò' || c == 'ó' || c == 'ô' || c == 'õ' || c == 'ö' || c == 'ō' || c == 'ŏ' || c == 'ő' { 'o' }
    else if c == 'Ŕ' || c == 'Ŗ' || c == 'Ř' { 'R' }
    else if c == 'ŕ' || c == 'ŗ' || c == 'ř' { 'r' }
    else if c == 'Ś' || c == 'Ŝ' || c == 'Ş' || c == 'Š' { 'S' }
    else if c == 'ś' || c == 'ŝ' || c == 'ş' || c == 'š' { 's' }
    else if c == 'Ţ' || c == 'Ť' { 'T' }
    else if c == 'ţ' || c == 'ť' { 't' }
    else if c == 'Ù' || c == 'Ú' || c == 'Û' || c == 'Ü' || c == 'Ũ' || c == 'Ū' || c == 'Ŭ' || c == 'Ů' || c == 'Ű' || c == 'Ų' { 'U' }
    else if c == 'ù' || c == 'ú' || c == 'û' || c == 'ü' || c == 'ũ' || c == 'ū' || c == 'ŭ' || c == 'ů' || c == 'ű' || c == 'ų' { 'u' }
    else if c == 'Ŵ' { 'W' }
    else if c == 'ŵ' { 'w' }
    else if c == 'Ý' || c == 'Ŷ' || c == 'Ÿ' { 'Y' }
    else if c == 'ý' || c == 'ÿ' || c == 'ŷ' { 'y' }
    else if c == 'Ź' || c == 'Ż' || c == 'Ž' { 'Z' }
    else if c == 'ź' || c == 'ż' || c == 'ž' { 'z' }
    else { c }
}

/// O caractere sem acento: fora do bloco latino de U+00C0 a U+017F nada muda.
pub open spec fn sem_acento(c: char) -> char {
    if '\u{c0}' <= c <= '\u{17f}' {
        letra_base(c)
    } else {
        c
    }
}

/// O texto com cada caractere trocado pela sua forma sem acento.
pub open spec fn sem_acentos(s: Seq<char>) -> Seq<char> {
    s.map_values(|c: char| sem_acento(c))
}

/// O texto em maiúsculas, segundo `str::to_uppercase` (Unicode).
pub uninterp spec fn maiusculas(s: Seq<char>) -> Seq<char>;

/// A maiúscula ASCII de um caractere: `a`-`z` viram `A`-`Z`; os demais ficam.
pub open spec fn maiuscula_ascii(c: char) -> char {
    if 'a' <= c <= 'z' {
        ((c as u32) - 32) as char
    } else {
        c
    }
}

/// A maiúscula ASCII troca cada letra de `a` a `z` pela letra de `A` a `Z` na
/// mesma posição do alfabeto (32 abaixo na tabela) e não muda os demais
/// caracteres.
pub proof fn lema_maiuscula_ascii(c: char)
    ensures
        'a' <= c <= 'z' ==> 'A' <= maiuscula_ascii(c) <= 'Z'
            && (maiuscula_ascii(c) as u32) - ('A' as u32) == (c as u32) - ('a' as u32),
        !('a' <= c <= 'z') ==> maiuscula_ascii(c) == c,
{
    if 'a' <= c <= 'z' {
        vstd::utf8::char_u32_cast(maiuscula_ascii(c), ((c as u32) - 32) as u32);
    }
}

/// O texto em maiúsculas: para um texto ASCII, `a`-`z` viram `A`-`Z` e nada
/// mais muda; para os demais, o que `str::to_uppercase` devolve.
pub open spec fn em_maiusculas(s: Seq<char>) -> Seq<char> {
    if is_ascii_chars(s) {
        s.map_values(|c: char| maiuscula_ascii(c))
    } else {
        maiusculas(s)
    }
}

/// Converte o texto para maiúsculas.
///
/// Chama `str::to_uppercase` da biblioteca padrão. O resultado é nomeado
/// (`maiusculas`), pois depende só do texto e as regras de caixa do Unicode
/// não cabem em poucas linhas; para um texto ASCII o contrato afirma também a
/// regra documentada: `a`-`z` viram `A`-`Z` e nada mais muda.
#[verifier::external_body]
fn para_maiusculas(s: &str) -> (r: String)
    ensures
        r@ == maiusculas(s@),
        r@ == em_maiusculas(s@),
{
    s.to_uppercase()
}

/// O texto antes do corte: sem acentos, em maiúsculas e outra vez sem
/// acentos, para que nenhuma letra acentuada reste, seja qual for o que a
/// passagem a maiúsculas devolva.
pub open spec fn preparado(s: Seq<char>) -> Seq<char> {
    sem_acentos(em_maiusculas(sem_acentos(s)))
}

/// O texto sem acentos, em maiúsculas e cortado em `max` bytes.
pub open spec fn normalizado(s: Seq<char>, max: nat) -> Seq<char> {
    prefixo_bytes(preparado(s), max)
}

/// A normalização de `s` com limite `max` não corta um caractere ao meio.
pub open spec fn normalizacao_possivel(s: Seq<char>, max: nat) -> bool {
    corte_valido(preparado(s), max)
}

/// Nenhum caractere do texto é uma letra acentuada da tabela de `sem_acento`.
pub open spec fn sem_letra_acentuada(s: Seq<char>) -> bool {
    forall|i: int| 0 <= i < s.len() ==> sem_acento(#[trigger] s[i]) == s[i]
}

/// Tirar o acento de um caractere já sem acento não o muda.
proof fn lema_sem_acento_estavel(c: char)
    ensures
        sem_acento(sem_acento(c)) == sem_acento(c),
{
}

/// A forma sem acento de um caractere.
pub fn remover_acento(c: char) -> (r: char)
    ensures
        r == sem_acento(c),
{
    match c {
        'À' | 'Á' | 'Â' | 'Ã' | 'Ä' | 'Å' | 'Ā' | 'Ă' | 'Ą' => 'A',
        'à' | 'á' | 'â' | 'ã' | 'ä' | 'å' | 'ā' | 'ă' | 'ą' => 'a',
        'Ç' | 'Ć' | 'Ĉ' | 'Ċ' | 'Č' => 'C',
        'ç' | 'ć' | 'ĉ' | 'ċ' | 'č' => 'c',
        'Ď' => 'D',
        'ď' => 'd',
        'È' | 'É' | 'Ê' | 'Ë' | 'Ē' | 'Ĕ' | 'Ė' | 'Ę' | 'Ě' => 'E',
        'è' | 'é' | 'ê' | 'ë' | 'ē' | 'ĕ' | 'ė' | 'ę' | 'ě' => 'e',
        'Ĝ' | 'Ğ' | 'Ġ' | 'Ģ' => 'G',
        'ĝ' | 'ğ' | 'ġ' | 'ģ' => 'g',
        'Ĥ' => 'H',
        'ĥ' => 'h',
        'Ì' | 'Í' | 'Î' | 'Ï' | 'Ĩ' | 'Ī' | 'Ĭ' | 'Į' | 'İ' => 'I',
        'ì' | 'í' | 'î' | 'ï' | 'ĩ' | 'ī' | 'ĭ' | 'į' => 'i',
        'Ĵ' => 'J',
        'ĵ' => 'j',
        'Ķ' => 'K',
        'ķ' => 'k',
        'Ĺ' | 'Ļ' | 'Ľ' => 'L',
        'ĺ' | 'ļ' | 'ľ' => 'l',
        'Ñ' | 'Ń' | 'Ņ' | 'Ň' => 'N',
        'ñ' | 'ń' | 'ņ' | 'ň' => 'n',
        'Ò' | 'Ó' | 'Ô' | 'Õ' | 'Ö' | 'Ō' | 'Ŏ' | 'Ő' => 'O',
        'ò' | 'ó' | 'ô' | 'õ' | 'ö' | 'ō' | 'ŏ' | 'ő' => 'o',
        'Ŕ' | 'Ŗ' | 'Ř' => 'R',
        'ŕ' | 'ŗ' | 'ř' => 'r',
        'Ś' | 'Ŝ' | 'Ş' | 'Š' => 'S',
        'ś' | 'ŝ' | 'ş' | 'š' => 's',
        'Ţ' | 'Ť' => 'T',
        'ţ' | 'ť' => 't',
        'Ù' | 'Ú' | 'Û' | 'Ü' | 'Ũ' | 'Ū' | 'Ŭ' | 'Ů' | 'Ű' | 'Ų' => 'U',
        'ù' | 'ú' | 'û' | 'ü' | 'ũ' | 'ū' | 'ŭ' | 'ů' | 'ű' | 'ų' => 'u',
        'Ŵ' => 'W',
        'ŵ' => 'w',
        'Ý' | 'Ŷ' | 'Ÿ' => 'Y',
        'ý' | 'ÿ' | 'ŷ' => 'y',
        'Ź' | 'Ż' | 'Ž' => 'Z',
        'ź' | 'ż' | 'ž' => 'z',
        _ => c,
    }
}

/// O texto com os acentos removidos, caractere a caractere.
pub fn remover_acentos(texto: &str) -> (r: String)
    ensures
        r@ == sem_acentos(texto@),
{
    let n = texto.unicode_len();
    let mut r = String::new();
    let mut i: usize = 0;
    while i < n
        invariant
            n == texto@.len(),
            i <= n,
            r@ == sem_acentos(texto@.take(i as int)),
        decreases n - i,
    {
        let c = texto.get_char(i);
        acrescentar_char(&mut r, remover_acento(c));
        assert(texto@.take(i + 1) == texto@.take(i as int).push(c));
        i = i + 1;
    }
    assert(texto@.take(n as int) == texto@);
    r
}

/// Remove acentos, converte para maiúsculas e corta o texto em `max_len`
/// bytes, como o BRCode exige para o nome e a cidade do recebedor: no
/// resultado não resta nenhuma letra latina acentuada de U+00C0 a U+017F.
pub fn normalizar_texto(texto: &str, max_len: usize) -> (r: String)
    requires
        normalizacao_possivel(texto@, max_len as nat),
    ensures
        r@ == normalizado(texto@, max_len as nat),
        encode_utf8(r@).len() <= max_len,
        sem_letra_acentuada(r@),
{
    let sem = remover_acentos(texto);
    let maiusculo = para_maiusculas(sem.as_str());
    let pronto = remover_acentos(maiusculo.as_str());
    let r = cortar_em_bytes(pronto.as_str(), max_len);
    proof {
        lema_prefixo_do_texto(pronto@, max_len as nat);
        assert forall|i: int| 0 <= i < r@.len() implies sem_acento(#[trigger] r@[i]) == r@[i] by {
            assert(r@[i] == pronto@[i]);
            lema_sem_acento_estavel(maiusculo@[i]);
        }
    }
    r
}

/// Diz se `normalizar_texto(texto, max_len)` pode ser calculado sem cortar
/// um caractere ao meio.
pub fn pode_normalizar(texto: &str, max_len: usize) -> (r: bool)
    ensures
        r == normalizacao_possivel(texto@, max_len as nat),
{
    let sem = remover_acentos(texto);
    let maiusculo = para_maiusculas(sem.as_str());
    let pronto = remover_acentos(maiusculo.as_str());
    pronto.as_str().as_bytes().len() <= max_len || pronto.as_str().is_char_boundary(max_len)
}

// ── CRC-16/CCITT-FALSE ──────────────────────────────────────────────────────

/// Um passo do CRC-16 sem reflexão, polinômio 0x1021: desloca a soma um bit à
/// esquerda e aplica o polinômio quando o bit que sai difere do bit que entra.
pub open spec fn crc16_passo(soma: u16, entrada: bool) -> u16 {
    let deslocada = soma << 1u16;
    if ((soma & 0x8000u16) != 0u16) != entrada {
        deslocada ^ 0x1021u16
    } else {
        deslocada
    }
}

/// Processa os `bits` bits mais baixos de `byte`, do mais alto para o mais baixo.
pub open spec fn crc16_byte(soma: u16, byte: u8, bits: nat) -> u16
    decreases bits,
{
    if bits == 0 {
        soma
    } else {
        let i = (bits - 1) as nat;
        crc16_byte(crc16_passo(soma, (byte >> (i as u8)) & 1u8 == 1u8), byte, i)
    }
}

/// Processa os bytes em ordem a partir da soma `soma`.
pub open spec fn crc16_bytes(soma: u16, dados: Seq<u8>) -> u16
    decreases dados.len(),
{
    if dados.len() == 0 {
        soma
    } else {
        crc16_bytes(crc16_byte(soma, dados[0], 8), dados.drop_first())
    }
}

/// CRC-16/CCITT-FALSE: polinômio 0x1021, valor inicial 0xFFFF, sem reflexão,
/// sem XOR final.
pub open spec fn crc16_ccitt_false(dados: Seq<u8>) -> u16 {
    crc16_bytes(0xFFFFu16, dados)
}

/// Um deslocamento da forma clássica, byte a byte, do CRC-16: desloca a soma
/// um bit à esquerda e aplica o polinômio 0x1021 se o bit que sai era 1.
pub open spec fn crc16_desloca(soma: u16) -> u16 {
    if (soma & 0x8000u16) != 0u16 {
        (soma << 1u16) ^ 0x1021u16
    } else {
        soma << 1u16
    }
}

/// `n` deslocamentos seguidos.
pub open spec fn crc16_desloca_n(soma: u16, n: nat) -> u16
    decreases n,
{
    if n == 0 {
        soma
    } else {
        crc16_desloca_n(crc16_desloca(soma), (n - 1) as nat)
    }
}

/// Um byte na forma clássica: `soma ^ (byte << 8)` e oito deslocamentos.
pub open spec fn crc16_byte_classico(soma: u16, byte: u8) -> u16 {
    crc16_desloca_n(soma ^ ((byte as u16) << 8u16), 8)
}

/// Os bytes em ordem, na forma clássica, a partir da soma `soma`.
pub open spec fn crc16_classico(soma: u16, dados: Seq<u8>) -> u16
    decreases dados.len(),
{
    if dados.len() == 0 {
        soma
    } else {
        crc16_classico(crc16_byte_classico(soma, dados[0]), dados.drop_first())
    }
}

/// Um bit do byte entra na soma pelo alto: deslocar a soma com o byte já
/// alinhado é dar o passo bit a bit e alinhar o resto do byte uma casa acima.
proof fn lema_passo_classico(soma: u16, byte: u8, i: u8)
    by (bit_vector)
    requires
        i < 8,
    ensures
        i == 0 ==> crc16_desloca(soma ^ ((byte as u16) << ((15 - i) as u16))) == crc16_passo(
            soma,
            (byte >> i) & 1u8 == 1u8,
        ),
        i > 0 ==> crc16_desloca(soma ^ ((byte as u16) << ((15 - i) as u16))) == crc16_passo(
            soma,
            (byte >> i) & 1u8 == 1u8,
        ) ^ ((byte as u16) << ((16 - i) as u16)),
{
}

/// Os `n` bits mais baixos de um byte, processados bit a bit, dão o mesmo que
/// alinhá-los no alto da soma e deslocar `n` vezes.
proof fn lema_byte_classico(soma: u16, byte: u8, n: nat)
    requires
        1 <= n <= 8,
    ensures
        crc16_byte(soma, byte, n) == crc16_desloca_n(soma ^ ((byte as u16) << ((16 - n) as u16)), n),
    decreases n,
{
    let i = (n - 1) as nat;
    let j = i as u8;
    lema_passo_classico(soma, byte, j);
    let seguinte = crc16_passo(soma, (byte >> j) & 1u8 == 1u8);
    let x = soma ^ ((byte as u16) << ((16 - n) as u16));
    assert(((15 - j) as u16) == ((16 - n) as u16));
    assert(crc16_byte(soma, byte, n) == crc16_byte(seguinte, byte, i));
    assert(crc16_desloca_n(x, n) == crc16_desloca_n(crc16_desloca(x), i));
    if n > 1 {
        assert(((16 - j) as u16) == ((16 - i) as u16));
        lema_byte_classico(seguinte, byte, i);
    } else {
        assert(crc16_desloca(x) == seguinte);
    }
}

/// O CRC-16/CCITT-FALSE calculado bit a bit é o da forma clássica byte a
/// byte: a partir de 0xFFFF, para cada byte `b`, `c ^= b << 8` e depois oito
/// vezes `c = (c << 1) ^ 0x1021` se o bit alto de `c` é 1, senão `c << 1`;
/// sem reflexão e sem XOR final.
pub proof fn lema_crc16_por_bytes(dados: Seq<u8>)
    ensures
        crc16_ccitt_false(dados) == crc16_classico(0xFFFFu16, dados),
{
    lema_crc16_bytes_classico(0xFFFFu16, dados);
}

/// A forma bit a bit e a forma clássica concordam a partir de qualquer soma.
proof fn lema_crc16_bytes_classico(soma: u16, dados: Seq<u8>)
    ensures
        crc16_bytes(soma, dados) == crc16_classico(soma, dados),
    decreases dados.len(),
{
    if dados.len() > 0 {
        lema_byte_classico(soma, dados[0], 8);
        lema_crc16_bytes_classico(crc16_byte(soma, dados[0], 8), dados.drop_first());
    }
}

/// Calcula o CRC-16/CCITT-FALSE dos bytes.
///
/// Chama `CRC::crc16ccitt_false`, `CRC::digest` e `CRC::get_crc` de crc_any.
/// O contrato afirma que o resultado é o CRC-16 de polinômio 0x1021, valor
/// inicial 0xFFFF, sem reflexão e sem XOR final (os parâmetros com que
/// crc_any define esse CRC), devolvido como `u64`.
#[verifier::external_body]
fn crc16_ccitt_false_de(dados: &[u8]) -> (r: u64)
    ensures
        r == crc16_ccitt_false(dados@) as u64,
{
    let mut crc = CRC::crc16ccitt_false();
    crc.digest(dados);
    crc.get_crc()
}

/// Os quatro dígitos hexadecimais maiúsculos de `v` (`{:04X}`).
pub open spec fn hex4(v: u16) -> Seq<char> {
    seq![
        digito(((v as nat) / 4096) % 16),
        digito(((v as nat) / 256) % 16),
        digito(((v as nat) / 16) % 16),
        digito((v as nat) % 16),
    ]
}

/// Os quatro caracteres de `hex4(v)` são dígitos hexadecimais maiúsculos e,
/// lidos de volta em base 16, do mais significativo ao menos, dão `v`.
pub proof fn lema_hex4(v: u16)
    ensures
        hex4(v).len() == 4,
        forall|k: int| 0 <= k < 4 ==> eh_hex(#[trigger] hex4(v)[k]),
        4096 * valor_hex(hex4(v)[0]) + 256 * valor_hex(hex4(v)[1]) + 16 * valor_hex(hex4(v)[2])
            + valor_hex(hex4(v)[3]) == v as int,
{
    let n = v as nat;
    lema_digito_hexadecimal((n / 4096) % 16);
    lema_digito_hexadecimal((n / 256) % 16);
    lema_digito_hexadecimal((n / 16) % 16);
    lema_digito_hexadecimal(n % 16);
    assert(4096 * ((n / 4096) % 16) + 256 * ((n / 256) % 16) + 16 * ((n / 16) % 16) + n % 16 == n)
        by (nonlinear_arith)
        requires
            n < 65536,
    ;
}

/// O texto do CRC de um payload: o CRC-16/CCITT-FALSE dos seus bytes UTF-8.
pub open spec fn texto_crc(payload: Seq<char>) -> Seq<char> {
    hex4(crc16_ccitt_false(encode_utf8(payload)))
}

/// Calcula o CRC-16/CCITT-FALSE do payload (em bytes UTF-8) e o escreve com
/// quatro dígitos hexadecimais maiúsculos.
pub fn calcular_crc16(payload: &str) -> (r: String)
    ensures
        r@ == texto_crc(payload@),
{
    let crc = crc16_ccitt_false_de(payload.as_bytes());
    let v = crc % 65536;
    assert(v == crc16_ccitt_false(encode_utf8(payload@)));
    let mut r = String::new();
    acrescentar_char(&mut r, char_digito((v / 4096) % 16));
    acrescentar_char(&mut r, char_digito((v / 256) % 16));
    acrescentar_char(&mut r, char_digito((v / 16) % 16));
    acrescentar_char(&mut r, char_digito(v % 16));
    assert(r@ =~= texto_crc(payload@));
    r
}

// ── Payload ─────────────────────────────────────────────────────────────────

/// O método de iniciação: "12" com valor fixo, "11" sem.
pub open spec fn metodo_iniciacao(tem_valor: bool) -> Seq<char> {
    if tem_valor {
        METODO_COM_VALOR@
    } else {
        METODO_ESTATICO@
    }
}

/// O campo de valor (etiqueta 54): presente só quando há valor e ele é positivo.
pub open spec fn campo_valor(valor: Option<ValorPix>) -> Seq<char> {
    match valor {
        Some(v) => if v.positivo {
            campo_tlv(TAG_AMOUNT@, v.texto@)
        } else {
            Seq::empty()
        },
        None => Seq::empty(),
    }
}

/// O payload antes do valor do CRC, terminado pelo início do campo de CRC
/// ("6304"), com o nome e a cidade já normalizados.
pub open spec fn corpo_payload(d: DadosPix, nome: Seq<char>, cidade: Seq<char>) -> Seq<char> {
    campo_tlv(TAG_PAYLOAD_FORMAT@, FORMATO_PAYLOAD@)
        + campo_tlv(TAG_INITIATION_METHOD@, metodo_iniciacao(d.valor is Some))
        + campo_merchant_account(d.chave@)
        + campo_tlv(TAG_CATEGORY_CODE@, MCC_GENERIC@)
        + campo_tlv(TAG_CURRENCY@, CURRENCY_BRL@)
        + campo_valor(d.valor)
        + campo_tlv(TAG_COUNTRY@, COUNTRY_BR@)
        + campo_tlv(TAG_MERCHANT_NAME@, nome)
        + campo_tlv(TAG_MERCHANT_CITY@, cidade)
        + campo_additional_data(DEFAULT_TXID@)
        + TAG_CRC@
        + TAMANHO_CRC@
}

/// O texto seguido do seu CRC.
pub open spec fn com_crc(corpo: Seq<char>) -> Seq<char> {
    corpo + texto_crc(corpo)
}

/// O resultado da geração do payload: erro para chave vazia, nome ou cidade
/// vazios após a normalização; senão o payload com o CRC.
pub open spec fn resultado_payload(d: DadosPix) -> Result<Seq<char>, Seq<char>> {
    if d.chave@.len() == 0 {
        Err(ERRO_CHAVE_VAZIA@)
    } else {
        let nome = normalizado(d.nome@, MAX_NOME as nat);
        let cidade = normalizado(d.cidade@, MAX_CIDADE as nat);
        if nome.len() == 0 {
            Err(ERRO_NOME_VAZIO@)
        } else if cidade.len() == 0 {
            Err(ERRO_CIDADE_VAZIA@)
        } else {
            Ok(com_crc(corpo_payload(d, nome, cidade)))
        }
    }
}

/// A geração do payload não corta caractere ao meio ao normalizar o nome e a
/// cidade (o que só acontece com chave não vazia).
pub open spec fn payload_calculavel(d: DadosPix) -> bool {
    d.chave@.len() > 0 ==> {
        &&& normalizacao_possivel(d.nome@, MAX_NOME as nat)
        &&& normalizacao_possivel(d.cidade@, MAX_CIDADE as nat)
    }
}

/// O resultado de execução corresponde ao resultado especificado.
pub open spec fn corresponde(r: Result<String, String>, esperado: Result<Seq<char>, Seq<char>>) -> bool {
    match r {
        Ok(p) => esperado == Ok::<Seq<char>, Seq<char>>(p@),
        Err(e) => esperado == Err::<Seq<char>, Seq<char>>(e@),
    }
}

/// Gera o payload EMV/BRCode completo de um QR Code PIX estático.
///
/// Devolve erro se a chave PIX for vazia, ou se o nome ou a cidade ficarem
/// vazios depois de normalizados.
pub fn gerar_payload_pix(dados: &DadosPix) -> (r: Result<String, String>)
    requires
        payload_calculavel(*dados),
    ensures
        corresponde(r, resultado_payload(*dados)),
{
    if dados.chave.as_str().is_empty() {
        return Err(ERRO_CHAVE_VAZIA.to_owned());
    }

    let nome = normalizar_texto(dados.nome.as_str(), MAX_NOME);
    let cidade = normalizar_texto(dados.cidade.as_str(), MAX_CIDADE);

    if nome.as_str().is_empty() {
        return Err(ERRO_NOME_VAZIO.to_owned());
    }
    if cidade.as_str().is_empty() {
        return Err(ERRO_CIDADE_VAZIA.to_owned());
    }

    let mut payload = String::new();

    let campo = montar_campo_tlv(TAG_PAYLOAD_FORMAT, FORMATO_PAYLOAD);
    payload.append(campo.as_str());

    let metodo = if dados.valor.is_some() { METODO_COM_VALOR } else { METODO_ESTATICO };
    let campo = montar_campo_tlv(TAG_INITIATION_METHOD, metodo);
    payload.append(campo.as_str());

    let campo = montar_merchant_account(dados.chave.as_str());
    payload.append(campo.as_str());

    let campo = montar_campo_tlv(TAG_CATEGORY_CODE, MCC_GENERIC);
    payload.append(campo.as_str());

    let campo = montar_campo_tlv(TAG_CURRENCY, CURRENCY_BRL);
    payload.append(campo.as_str());

    let ghost antes_valor = payload@;
    match &dados.valor {
        Some(v) => {
            if v.positivo {
                let campo = montar_campo_tlv(TAG_AMOUNT, v.texto.as_str());
                payload.append(campo.as_str());
            }
        },
        None => {},
    }
    assert(payload@ =~= antes_valor + campo_valor(dados.valor));

    let campo = montar_campo_tlv(TAG_COUNTRY, COUNTRY_BR);
    payload.append(campo.as_str());

    let campo = montar_campo_tlv(TAG_MERCHANT_NAME, nome.as_str());
    payload.append(campo.as_str());

    let campo = montar_campo_tlv(TAG_MERCHANT_CITY, cidade.as_str());
    payload.append(campo.as_str());

    let campo = montar_additional_data(DEFAULT_TXID);
    payload.append(campo.as_str());

    payload.append(TAG_CRC);
    payload.append(TAMANHO_CRC);
    assert(payload@ =~= corpo_payload(*dados, nome@, cidade@));

    let crc = calcular_crc16(payload.as_str());
    payload.append(crc.as_str());

    Ok(payload)
}

/// Gera o payload quando isso é possível sem cortar um caractere ao meio ao
/// normalizar o nome ou a cidade; devolve `None` nesse caso.
pub fn tentar_gerar_payload_pix(dados: &DadosPix) -> (r: Option<Result<String, String>>)
    ensures
        r is Some <==> payload_calculavel(*dados),
        r matches Some(res) ==> corresponde(res, resultado_payload(*dados)),
{
    if !dados.chave.as_str().is_empty() {
        if !pode_normalizar(dados.nome.as_str(), MAX_NOME) {
            return None;
        }
        if !pode_normalizar(dados.cidade.as_str(), MAX_CIDADE) {
            return None;
        }
    }
    Some(gerar_payload_pix(dados))
}

// ── Propriedades do payload ─────────────────────────────────────────────────

/// O CRC fecha o payload: os quatro últimos caracteres são o CRC-16 de tudo
/// o que vem antes deles, e são precedidos pelo início do campo de CRC "6304".
pub proof fn lema_crc_do_payload(d: DadosPix)
    requires
        resultado_payload(d) is Ok,
    ensures
        ({
            let p = resultado_payload(d)->Ok_0;
            let n = p.len() as int;
            &&& n >= 8
            &&& p.subrange(n - 8, n - 4) == TAG_CRC@ + TAMANHO_CRC@
            &&& p.subrange(n - 4, n) == texto_crc(p.subrange(0, n - 4))
        }),
{
    reveal_strlit("63");
    reveal_strlit("04");
    let nome = normalizado(d.nome@, MAX_NOME as nat);
    let cidade = normalizado(d.cidade@, MAX_CIDADE as nat);
    let corpo = corpo_payload(d, nome, cidade);
    let p = com_crc(corpo);
    let n = p.len() as int;
    assert(texto_crc(corpo).len() == 4);
    assert(p.subrange(0, n - 4) =~= corpo);
    assert(p.subrange(n - 4, n) =~= texto_crc(corpo));
    assert(corpo.subrange(corpo.len() - 4, corpo.len() as int) =~= TAG_CRC@ + TAMANHO_CRC@);
    assert(p.subrange(n - 8, n - 4) =~= corpo.subrange(corpo.len() - 4, corpo.len() as int));
}

/// Os dois primeiros campos de um payload: "000201" e o método de iniciação.
proof fn lema_campos_iniciais(tem_valor: bool)
    ensures
        campo_tlv(TAG_PAYLOAD_FORMAT@, FORMATO_PAYLOAD@) == seq!['0', '0', '0', '2', '0', '1'],
        campo_tlv(TAG_INITIATION_METHOD@, metodo_iniciacao(tem_valor)) == if tem_valor {
            seq!['0', '1', '0', '2', '1', '2']
        } else {
            seq!['0', '1', '0', '2', '1', '1']
        },
{
    reveal_strlit("00");
    reveal_strlit("01");
    reveal_strlit("11");
    reveal_strlit("12");
    reveal_with_fuel(encode_utf8, 3);
    assert(encode_utf8(FORMATO_PAYLOAD@).len() == 2);
    assert(encode_utf8(metodo_iniciacao(tem_valor)).len() == 2);
    assert(campo_tlv(TAG_PAYLOAD_FORMAT@, FORMATO_PAYLOAD@) =~= seq!['0', '0', '0', '2', '0', '1']);
    if tem_valor {
        assert(campo_tlv(TAG_INITIATION_METHOD@, metodo_iniciacao(tem_valor))
            =~= seq!['0', '1', '0', '2', '1', '2']);
    } else {
        assert(campo_tlv(TAG_INITIATION_METHOD@, metodo_iniciacao(tem_valor))
            =~= seq!['0', '1', '0', '2', '1', '1']);
    }
}

/// O payload começa pelo indicador de formato "000201", seguido do método de
/// iniciação: "010212" quando há valor fixo e "010211" quando não há.
#[verifier::spinoff_prover]
#[verifier::rlimit(40)]
pub proof fn lema_inicio_do_payload(d: DadosPix)
    requires
        resultado_payload(d) is Ok,
    ensures
        ({
            let p = resultado_payload(d)->Ok_0;
            &&& p.len() >= 12
            &&& p.subrange(0, 6) == seq!['0', '0', '0', '2', '0', '1']
            &&& p.subrange(6, 12) == if d.valor is Some {
                seq!['0', '1', '0', '2', '1', '2']
            } else {
                seq!['0', '1', '0', '2', '1', '1']
            }
        }),
{
    lema_campos_iniciais(d.valor is Some);
    let formato = campo_tlv(TAG_PAYLOAD_FORMAT@, FORMATO_PAYLOAD@);
    let metodo = campo_tlv(TAG_INITIATION_METHOD@, metodo_iniciacao(d.valor is Some));
    let nome = normalizado(d.nome@, MAX_NOME as nat);
    let cidade = normalizado(d.cidade@, MAX_CIDADE as nat);
    let corpo = corpo_payload(d, nome, cidade);
    let p = com_crc(corpo);
    let inicio = formato + metodo;
    assert(inicio.len() == 12);
    assert(p.subrange(0, 12) =~= inicio) by {
        assert forall|i: int| 0 <= i < 12 implies p[i] == inicio[i] by {
        }
    }
    assert(p.subrange(0, 6) =~= inicio.subrange(0, 6));
    assert(p.subrange(6, 12) =~= inicio.subrange(6, 12));
    assert(inicio.subrange(0, 6) =~= formato);
    assert(inicio.subrange(6, 12) =~= metodo);
}

// ── Propriedades da normalização ────────────────────────────────────────────

/// Texto latino: só caracteres ASCII e as letras acentuadas da tabela de
/// `sem_acento`.
pub open spec fn texto_latino(s: Seq<char>) -> bool {
    forall|i: int| 0 <= i < s.len() ==> (#[trigger] s[i] <= '\u{7f}' || sem_acento(s[i]) != s[i])
}

/// A forma normalizada de um texto latino antes do corte: sem acentos e com
/// `a`-`z` em maiúsculas.
pub open spec fn forma_latina(s: Seq<char>) -> Seq<char> {
    sem_acentos(s).map_values(|c: char| maiuscula_ascii(c))
}

/// O menor de dois números.
pub open spec fn minimo(a: nat, b: nat) -> nat {
    if a <= b {
        a
    } else {
        b
    }
}

/// Sem letras minúsculas ASCII.
pub open spec fn sem_minusculas(s: Seq<char>) -> bool {
    forall|i: int| 0 <= i < s.len() ==> !('a' <= #[trigger] s[i] <= 'z')
}

/// Tirar os acentos de um texto latino dá um texto ASCII.
proof fn lema_sem_acentos_ascii(s: Seq<char>)
    requires
        texto_latino(s),
    ensures
        is_ascii_chars(sem_acentos(s)),
{
    assert forall|i: int| 0 <= i < sem_acentos(s).len() implies
        '\0' <= #[trigger] sem_acentos(s)[i] <= '\u{7f}' by {
        assert(s[i] <= '\u{7f}' || sem_acento(s[i]) != s[i]);
    }
}

/// Passar um texto ASCII a maiúsculas dá um texto ASCII sem minúsculas.
proof fn lema_maiusculas_ascii(u: Seq<char>)
    requires
        is_ascii_chars(u),
    ensures
        is_ascii_chars(u.map_values(|c: char| maiuscula_ascii(c))),
        sem_minusculas(u.map_values(|c: char| maiuscula_ascii(c))),
        sem_minusculas(u) ==> u.map_values(|c: char| maiuscula_ascii(c)) == u,
{
    let v = u.map_values(|c: char| maiuscula_ascii(c));
    assert forall|i: int| 0 <= i < v.len() implies '\0' <= #[trigger] v[i] <= '\u{7f}'
        && !('a' <= v[i] <= 'z') by {
        let c = u[i];
        if 'a' <= c <= 'z' {
            assert(('A' as u32) <= (c as u32) - 32 <= ('Z' as u32));
            vstd::utf8::char_u32_cast(v[i], ((c as u32) - 32) as u32);
        }
    }
    if sem_minusculas(u) {
        assert(v =~= u);
    }
}

/// O corte de um texto ASCII em `n` bytes nunca parte um caractere e dá os
/// seus primeiros `n` caracteres.
proof fn lema_corte_ascii(v: Seq<char>, n: nat)
    requires
        is_ascii_chars(v),
    ensures
        corte_valido(v, n),
        prefixo_bytes(v, n) == v.take(minimo(v.len(), n) as int),
{
    is_ascii_chars_encode_utf8(v);
    let b = encode_utf8(v);
    if v.len() > n {
        encode_utf8_valid_utf8(v);
        assert(!is_continuation_byte(b[n as int])) by {
            assert(b[n as int] == v[n as int] as u8);
            assert(v[n as int] <= '\u{7f}');
        }
        is_char_boundary_iff_not_is_continuation_byte(b, n as int);
        let t = v.take(n as int);
        assert(is_ascii_chars(t));
        is_ascii_chars_encode_utf8(t);
        assert(b.subrange(0, n as int) =~= encode_utf8(t));
        encode_utf8_decode_utf8(t);
    } else {
        assert(v.take(v.len() as int) =~= v);
    }
}

/// Normalizar um texto latino nunca parte um caractere e dá os primeiros
/// `max` caracteres da sua forma latina: um texto ASCII sem minúsculas, com
/// tantos caracteres quanto o texto original, até `max`.
pub proof fn lema_normalizacao_latina(s: Seq<char>, max: nat)
    requires
        texto_latino(s),
    ensures
        normalizacao_possivel(s, max),
        normalizado(s, max) == forma_latina(s).take(minimo(s.len(), max) as int),
        is_ascii_chars(normalizado(s, max)),
        sem_minusculas(normalizado(s, max)),
        normalizado(s, max).len() == minimo(s.len(), max),
{
    lema_sem_acentos_ascii(s);
    let u = sem_acentos(s);
    lema_maiusculas_ascii(u);
    let v = forma_latina(s);
    assert(em_maiusculas(u) == v);
    assert(sem_acentos(v) =~= v) by {
        assert forall|i: int| 0 <= i < v.len() implies #[trigger] sem_acentos(v)[i] == v[i] by {
            assert('\0' <= v[i] <= '\u{7f}');
        }
    }
    assert(preparado(s) == v);
    lema_corte_ascii(v, max);
    let r = normalizado(s, max);
    assert forall|i: int| 0 <= i < r.len() implies '\0' <= #[trigger] r[i] <= '\u{7f}'
        && !('a' <= r[i] <= 'z') by {
        assert(r[i] == v[i]);
    }
}

/// Normalizar um texto já normalizado não o muda.
pub proof fn lema_normalizacao_idempotente(s: Seq<char>, max: nat)
    requires
        texto_latino(s),
    ensures
        texto_latino(normalizado(s, max)),
        normalizado(normalizado(s, max), max) == normalizado(s, max),
{
    lema_normalizacao_latina(s, max);
    let r = normalizado(s, max);
    assert forall|i: int| 0 <= i < r.len() implies (#[trigger] r[i] <= '\u{7f}' || sem_acento(r[i]) != r[i]) by {
        assert('\0' <= r[i] <= '\u{7f}');
    }
    lema_normalizacao_latina(r, max);
    assert(sem_acentos(r) =~= r) by {
        assert forall|i: int| 0 <= i < r.len() implies #[trigger] sem_acentos(r)[i] == r[i] by {
            assert('\0' <= r[i] <= '\u{7f}');
        }
    }
    lema_maiusculas_ascii(r);
    assert(r.take(r.len() as int) =~= r);
}

/// Com um limite menor, a normalização de um texto latino é um prefixo da
/// normalização com o limite maior, e é também a normalização desta.
pub proof fn lema_normalizacao_prefixo(s: Seq<char>, menor: nat, maior: nat)
    requires
        texto_latino(s),
        menor <= maior,
    ensures
        normalizado(s, menor) == normalizado(s, maior).take(normalizado(s, menor).len() as int),
        normalizado(normalizado(s, maior), menor) == normalizado(s, menor),
{
    lema_normalizacao_latina(s, menor);
    lema_normalizacao_latina(s, maior);
    let r = normalizado(s, maior);
    assert(normalizado(s, menor) =~= r.take(normalizado(s, menor).len() as int));
    assert forall|i: int| 0 <= i < r.len() implies (#[trigger] r[i] <= '\u{7f}' || sem_acento(r[i]) != r[i]) by {
        assert('\0' <= r[i] <= '\u{7f}');
    }
    lema_normalizacao_latina(r, menor);
    assert(sem_acentos(r) =~= r) by {
        assert forall|i: int| 0 <= i < r.len() implies #[trigger] sem_acentos(r)[i] == r[i] by {
            assert('\0' <= r[i] <= '\u{7f}');
        }
    }
    lema_maiusculas_ascii(r);
    assert(normalizado(r, menor) =~= normalizado(s, menor));
}

/// Com nome e cidade latinos, a geração nunca parte um caractere; o erro vem
/// da chave vazia, depois do nome vazio, depois da cidade vazia, nessa ordem;
/// senão o payload tem o nome e a cidade na forma latina, cortados em 25 e 15
/// caracteres.
pub proof fn lema_payload_latino(d: DadosPix)
    requires
        texto_latino(d.nome@),
        texto_latino(d.cidade@),
    ensures
        payload_calculavel(d),
        resultado_payload(d) == if d.chave@.len() == 0 {
            Err::<Seq<char>, Seq<char>>(ERRO_CHAVE_VAZIA@)
        } else if d.nome@.len() == 0 {
            Err(ERRO_NOME_VAZIO@)
        } else if d.cidade@.len() == 0 {
            Err(ERRO_CIDADE_VAZIA@)
        } else {
            Ok(com_crc(corpo_payload(
                d,
                forma_latina(d.nome@).take(minimo(d.nome@.len(), MAX_NOME as nat) as int),
                forma_latina(d.cidade@).take(minimo(d.cidade@.len(), MAX_CIDADE as nat) as int),
            )))
        },
{
    lema_normalizacao_latina(d.nome@, MAX_NOME as nat);
    lema_normalizacao_latina(d.cidade@, MAX_CIDADE as nat);
}

// ── Leitura dos campos ──────────────────────────────────────────────────────

/// Lê uma sequência de campos TLV em bytes: dois bytes de etiqueta, dois
/// dígitos ASCII com o tamanho e esse número de bytes de valor, até o fim.
/// `None` se os bytes não se dividem assim.
pub open spec fn ler_campos(b: Seq<u8>) -> Option<Seq<(Seq<u8>, Seq<u8>)>>
    decreases b.len(),
{
    if b.len() == 0 {
        Some(Seq::empty())
    } else if b.len() >= 4 && 48 <= b[2] <= 57 && 48 <= b[3] <= 57
        && 4 + ((b[2] - 48) * 10 + (b[3] - 48)) <= b.len() {
        let n = (b[2] - 48) * 10 + (b[3] - 48);
        match ler_campos(b.subrange(4 + n, b.len() as int)) {
            Some(resto) => Some(seq![(b.subrange(0, 2), b.subrange(4, 4 + n))] + resto),
            None => None,
        }
    } else {
        None
    }
}

/// Os campos TLV escritos um após o outro.
pub open spec fn texto_campos(fs: Seq<(Seq<char>, Seq<char>)>) -> Seq<char>
    decreases fs.len(),
{
    if fs.len() == 0 {
        Seq::empty()
    } else {
        campo_tlv(fs[0].0, fs[0].1) + texto_campos(fs.drop_first())
    }
}

/// Os campos (etiqueta, valor) em bytes UTF-8.
pub open spec fn bytes_campos(fs: Seq<(Seq<char>, Seq<char>)>) -> Seq<(Seq<u8>, Seq<u8>)> {
    fs.map_values(|f: (Seq<char>, Seq<char>)| (encode_utf8(f.0), encode_utf8(f.1)))
}

/// Um campo legível de volta: etiqueta de dois caracteres ASCII e valor com
/// menos de 100 bytes (o tamanho cabe em dois dígitos).
pub open spec fn campo_curto(f: (Seq<char>, Seq<char>)) -> bool {
    &&& f.0.len() == 2
    &&& is_ascii_chars(f.0)
    &&& encode_utf8(f.1).len() < 100
}

/// O dígito decimal `d` é o caractere ASCII `48 + d`.
proof fn lema_digito(d: nat)
    requires
        d < 10,
    ensures
        digito(d) as u32 == 48 + d,
{
}

/// O tamanho com dois dígitos de um número menor que 100, em bytes.
proof fn lema_dois_digitos(n: nat)
    requires
        n < 100,
    ensures
        encode_utf8(decimal_dois_digitos(n)) == seq![(48 + n / 10) as u8, (48 + n % 10) as u8],
{
    let d = seq![digito(n / 10), digito(n % 10)];
    if n >= 10 {
        assert(decimal(n / 10) == seq![digito(n / 10)]);
    }
    assert(decimal_dois_digitos(n) =~= d);
    lema_digito(n / 10);
    lema_digito(n % 10);
    assert(is_ascii_chars(d));
    is_ascii_chars_encode_utf8(d);
    assert(encode_utf8(d) =~= seq![(48 + n / 10) as u8, (48 + n % 10) as u8]);
}

/// Campos curtos escritos um após o outro são lidos de volta, em ordem.
pub proof fn lema_ler_campos(fs: Seq<(Seq<char>, Seq<char>)>)
    requires
        forall|i: int| 0 <= i < fs.len() ==> campo_curto(#[trigger] fs[i]),
    ensures
        ler_campos(encode_utf8(texto_campos(fs))) == Some(bytes_campos(fs)),
    decreases fs.len(),
{
    if fs.len() == 0 {
        assert(bytes_campos(fs) =~= Seq::empty());
    } else {
        let f = fs[0];
        assert(campo_curto(f));
        let resto = fs.drop_first();
        assert forall|i: int| 0 <= i < resto.len() implies campo_curto(#[trigger] resto[i]) by {
            assert(resto[i] == fs[i + 1]);
        }
        lema_ler_campos(resto);
        let n = encode_utf8(f.1).len();
        let dd = decimal_dois_digitos(n);
        let r = texto_campos(resto);
        lema_utf8_concatenacao(f.0 + dd + f.1, r);
        lema_utf8_concatenacao(f.0 + dd, f.1);
        lema_utf8_concatenacao(f.0, dd);
        is_ascii_chars_encode_utf8(f.0);
        lema_dois_digitos(n);
        let e0 = encode_utf8(f.0);
        let ed = encode_utf8(dd);
        let ev = encode_utf8(f.1);
        let er = encode_utf8(r);
        let b = encode_utf8(texto_campos(fs));
        assert(b == e0 + ed + ev + er);
        assert(b[2] == 48 + n / 10);
        assert(b[3] == 48 + n % 10);
        assert((b[2] - 48) * 10 + (b[3] - 48) == n);
        assert(b.subrange(0, 2) =~= e0);
        assert(b.subrange(4, 4 + n as int) =~= ev);
        assert(b.subrange(4 + n as int, b.len() as int) =~= er);
        assert(bytes_campos(fs) =~= seq![(e0, ev)] + bytes_campos(resto));
    }
}

/// O conteúdo do campo Merchant Account Information.
pub open spec fn conteudo_merchant(chave: Seq<char>) -> Seq<char> {
    campo_tlv(SUBTAG_GUI@, PIX_GUI@) + campo_tlv(SUBTAG_CHAVE@, chave)
}

/// O campo de valor como lista: um campo quando há valor positivo, nenhum
/// quando não.
pub open spec fn lista_valor(valor: Option<ValorPix>) -> Seq<(Seq<char>, Seq<char>)> {
    match valor {
        Some(v) => if v.positivo {
            seq![(TAG_AMOUNT@, v.texto@)]
        } else {
            Seq::empty()
        },
        None => Seq::empty(),
    }
}

/// Os campos do payload, em ordem: 00, 01, 26, 52, 53, 54 (se houver valor
/// positivo), 58, 59, 60, 62 e 63 (o CRC).
pub open spec fn campos_payload(d: DadosPix, nome: Seq<char>, cidade: Seq<char>) -> Seq<(Seq<char>, Seq<char>)> {
    seq![
        (TAG_PAYLOAD_FORMAT@, FORMATO_PAYLOAD@),
        (TAG_INITIATION_METHOD@, metodo_iniciacao(d.valor is Some)),
        (TAG_MERCHANT_ACCOUNT@, conteudo_merchant(d.chave@)),
        (TAG_CATEGORY_CODE@, MCC_GENERIC@),
        (TAG_CURRENCY@, CURRENCY_BRL@),
    ] + lista_valor(d.valor) + seq![
        (TAG_COUNTRY@, COUNTRY_BR@),
        (TAG_MERCHANT_NAME@, nome),
        (TAG_MERCHANT_CITY@, cidade),
        (TAG_ADDITIONAL_DATA@, campo_tlv(SUBTAG_TXID@, DEFAULT_TXID@)),
        (TAG_CRC@, texto_crc(corpo_payload(d, nome, cidade))),
    ]
}

/// Escrever uma lista de campos seguida de outra é escrever as duas.
proof fn lema_texto_campos_concat(a: Seq<(Seq<char>, Seq<char>)>, b: Seq<(Seq<char>, Seq<char>)>)
    ensures
        texto_campos(a + b) == texto_campos(a) + texto_campos(b),
    decreases a.len(),
{
    if a.len() == 0 {
        assert(a + b =~= b);
        assert(texto_campos(a) + texto_campos(b) =~= texto_campos(b));
    } else {
        assert((a + b)[0] == a[0]);
        assert((a + b).drop_first() =~= a.drop_first() + b);
        lema_texto_campos_concat(a.drop_first(), b);
        assert(texto_campos(a + b) =~= texto_campos(a) + texto_campos(b));
    }
}

/// Uma lista com todos os campos curtos, seguida de outra assim, só tem
/// campos curtos.
proof fn lema_curtos_concat(a: Seq<(Seq<char>, Seq<char>)>, b: Seq<(Seq<char>, Seq<char>)>)
    requires
        forall|i: int| 0 <= i < a.len() ==> campo_curto(#[trigger] a[i]),
        forall|i: int| 0 <= i < b.len() ==> campo_curto(#[trigger] b[i]),
    ensures
        forall|i: int| 0 <= i < (a + b).len() ==> campo_curto(#[trigger] (a + b)[i]),
{
    assert forall|i: int| 0 <= i < (a + b).len() implies campo_curto(#[trigger] (a + b)[i]) by {
        if i < a.len() {
            assert((a + b)[i] == a[i]);
        } else {
            assert((a + b)[i] == b[i - a.len()]);
        }
    }
}

/// Um campo com valor de menos de 100 bytes ocupa 4 bytes mais o valor.
proof fn lema_tamanho_campo(t: Seq<char>, v: Seq<char>)
    requires
        campo_curto((t, v)),
    ensures
        encode_utf8(campo_tlv(t, v)).len() == 4 + encode_utf8(v).len(),
{
    let n = encode_utf8(v).len();
    let dd = decimal_dois_digitos(n);
    lema_utf8_concatenacao(t + dd, v);
    lema_utf8_concatenacao(t, dd);
    is_ascii_chars_encode_utf8(t);
    lema_dois_digitos(n);
}

/// Um texto ASCII de `n` caracteres ocupa `n` bytes.
proof fn lema_ascii_bytes(s: Seq<char>)
    requires
        is_ascii_chars(s),
    ensures
        encode_utf8(s).len() == s.len(),
{
    is_ascii_chars_encode_utf8(s);
}

/// Um campo de etiqueta literal de dois caracteres ASCII e valor ASCII curto.
proof fn lema_campo_literal(t: Seq<char>, v: Seq<char>)
    requires
        t.len() == 2,
        is_ascii_chars(t),
        is_ascii_chars(v),
        v.len() < 100,
    ensures
        campo_curto((t, v)),
        encode_utf8(campo_tlv(t, v)).len() == 4 + v.len(),
{
    lema_ascii_bytes(v);
    lema_tamanho_campo(t, v);
}

/// O texto do CRC são quatro dígitos hexadecimais ASCII.
proof fn lema_texto_crc(corpo: Seq<char>)
    ensures
        texto_crc(corpo).len() == 4,
        is_ascii_chars(texto_crc(corpo)),
        encode_utf8(texto_crc(corpo)).len() == 4,
{
    let h = texto_crc(corpo);
    assert(is_ascii_chars(h));
    lema_ascii_bytes(h);
}

/// Os valores de texto fixos do payload: ASCII, com os tamanhos que têm.
proof fn lema_literais()
    ensures
        TAG_PAYLOAD_FORMAT@.len() == 2 && is_ascii_chars(TAG_PAYLOAD_FORMAT@),
        TAG_INITIATION_METHOD@.len() == 2 && is_ascii_chars(TAG_INITIATION_METHOD@),
        TAG_MERCHANT_ACCOUNT@.len() == 2 && is_ascii_chars(TAG_MERCHANT_ACCOUNT@),
        TAG_CATEGORY_CODE@.len() == 2 && is_ascii_chars(TAG_CATEGORY_CODE@),
        TAG_CURRENCY@.len() == 2 && is_ascii_chars(TAG_CURRENCY@),
        TAG_AMOUNT@.len() == 2 && is_ascii_chars(TAG_AMOUNT@),
        TAG_COUNTRY@.len() == 2 && is_ascii_chars(TAG_COUNTRY@),
        TAG_MERCHANT_NAME@.len() == 2 && is_ascii_chars(TAG_MERCHANT_NAME@),
        TAG_MERCHANT_CITY@.len() == 2 && is_ascii_chars(TAG_MERCHANT_CITY@),
        TAG_ADDITIONAL_DATA@.len() == 2 && is_ascii_chars(TAG_ADDITIONAL_DATA@),
        TAG_CRC@.len() == 2 && is_ascii_chars(TAG_CRC@),
        SUBTAG_GUI@.len() == 2 && is_ascii_chars(SUBTAG_GUI@),
        SUBTAG_CHAVE@.len() == 2 && is_ascii_chars(SUBTAG_CHAVE@),
        SUBTAG_TXID@.len() == 2 && is_ascii_chars(SUBTAG_TXID@),
        FORMATO_PAYLOAD@.len() == 2 && is_ascii_chars(FORMATO_PAYLOAD@),
        METODO_ESTATICO@.len() == 2 && is_ascii_chars(METODO_ESTATICO@),
        METODO_COM_VALOR@.len() == 2 && is_ascii_chars(METODO_COM_VALOR@),
        MCC_GENERIC@.len() == 4 && is_ascii_chars(MCC_GENERIC@),
        CURRENCY_BRL@.len() == 3 && is_ascii_chars(CURRENCY_BRL@),
        COUNTRY_BR@.len() == 2 && is_ascii_chars(COUNTRY_BR@),
        PIX_GUI@.len() == 14 && is_ascii_chars(PIX_GUI@),
        DEFAULT_TXID@.len() == 3 && is_ascii_chars(DEFAULT_TXID@),
        TAMANHO_CRC@ == decimal_dois_digitos(4),
{
    reveal_strlit("00");
    reveal_strlit("01");
    reveal_strlit("26");
    reveal_strlit("52");
    reveal_strlit("53");
    reveal_strlit("54");
    reveal_strlit("58");
    reveal_strlit("59");
    reveal_strlit("60");
    reveal_strlit("62");
    reveal_strlit("63");
    reveal_strlit("05");
    reveal_strlit("11");
    reveal_strlit("12");
    reveal_strlit("0000");
    reveal_strlit("986");
    reveal_strlit("BR");
    reveal_strlit("br.gov.bcb.pix");
    reveal_strlit("***");
    reveal_strlit("04");
    assert(TAMANHO_CRC@ =~= decimal_dois_digitos(4));
}

/// Cinco campos escritos um após o outro.
proof fn lema_texto_cinco(
    x0: (Seq<char>, Seq<char>),
    x1: (Seq<char>, Seq<char>),
    x2: (Seq<char>, Seq<char>),
    x3: (Seq<char>, Seq<char>),
    x4: (Seq<char>, Seq<char>),
)
    ensures
        texto_campos(seq![x0, x1, x2, x3, x4]) == campo_tlv(x0.0, x0.1) + campo_tlv(x1.0, x1.1)
            + campo_tlv(x2.0, x2.1) + campo_tlv(x3.0, x3.1) + campo_tlv(x4.0, x4.1),
{
    let fs = seq![x0, x1, x2, x3, x4];
    assert(fs.drop_first() =~= seq![x1, x2, x3, x4]);
    assert(fs.drop_first().drop_first() =~= seq![x2, x3, x4]);
    assert(fs.drop_first().drop_first().drop_first() =~= seq![x3, x4]);
    assert(fs.drop_first().drop_first().drop_first().drop_first() =~= seq![x4]);
    assert(seq![x4].drop_first() =~= Seq::<(Seq<char>, Seq<char>)>::empty());
    reveal_with_fuel(texto_campos, 6);
    assert(texto_campos(fs) =~= campo_tlv(x0.0, x0.1) + campo_tlv(x1.0, x1.1)
        + campo_tlv(x2.0, x2.1) + campo_tlv(x3.0, x3.1) + campo_tlv(x4.0, x4.1));
}

/// Os campos do payload, escritos, são o payload.
proof fn lema_texto_do_payload(d: DadosPix, nome: Seq<char>, cidade: Seq<char>)
    ensures
        texto_campos(campos_payload(d, nome, cidade)) == com_crc(corpo_payload(d, nome, cidade)),
{
    lema_literais();
    let corpo = corpo_payload(d, nome, cidade);
    let hex = texto_crc(corpo);
    lema_texto_crc(corpo);
    let metodo = metodo_iniciacao(d.valor is Some);
    let x0 = (TAG_PAYLOAD_FORMAT@, FORMATO_PAYLOAD@);
    let x1 = (TAG_INITIATION_METHOD@, metodo);
    let x2 = (TAG_MERCHANT_ACCOUNT@, conteudo_merchant(d.chave@));
    let x3 = (TAG_CATEGORY_CODE@, MCC_GENERIC@);
    let x4 = (TAG_CURRENCY@, CURRENCY_BRL@);
    let y0 = (TAG_COUNTRY@, COUNTRY_BR@);
    let y1 = (TAG_MERCHANT_NAME@, nome);
    let y2 = (TAG_MERCHANT_CITY@, cidade);
    let y3 = (TAG_ADDITIONAL_DATA@, campo_tlv(SUBTAG_TXID@, DEFAULT_TXID@));
    let y4 = (TAG_CRC@, hex);
    let a = seq![x0, x1, x2, x3, x4];
    let l = lista_valor(d.valor);
    let b = seq![y0, y1, y2, y3, y4];
    assert(campos_payload(d, nome, cidade) =~= a + l + b);
    lema_texto_campos_concat(a + l, b);
    lema_texto_campos_concat(a, l);
    lema_texto_cinco(x0, x1, x2, x3, x4);
    lema_texto_cinco(y0, y1, y2, y3, y4);
    assert(texto_campos(l) =~= campo_valor(d.valor)) by {
        reveal_with_fuel(texto_campos, 2);
        if l.len() == 1 {
            assert(l.drop_first() =~= Seq::<(Seq<char>, Seq<char>)>::empty());
        }
    }
    lema_ascii_bytes(hex);
    assert(campo_tlv(TAG_CRC@, hex) =~= TAG_CRC@ + TAMANHO_CRC@ + hex);
    assert(texto_campos(a + l + b) =~= com_crc(corpo));
}

/// Os subcampos do campo 26 e do campo 62 são curtos e se leem de volta; o
/// conteúdo do campo 26 tem no máximo 99 bytes.
proof fn lema_subcampos(chave: Seq<char>)
    requires
        encode_utf8(chave).len() <= 77,
    ensures
        encode_utf8(conteudo_merchant(chave)).len() <= 99,
        ler_campos(encode_utf8(conteudo_merchant(chave)))
            == Some(bytes_campos(seq![(SUBTAG_GUI@, PIX_GUI@), (SUBTAG_CHAVE@, chave)])),
        encode_utf8(campo_tlv(SUBTAG_TXID@, DEFAULT_TXID@)).len() == 7,
        ler_campos(encode_utf8(campo_tlv(SUBTAG_TXID@, DEFAULT_TXID@)))
            == Some(bytes_campos(seq![(SUBTAG_TXID@, DEFAULT_TXID@)])),
{
    lema_literais();
    let gui = (SUBTAG_GUI@, PIX_GUI@);
    let ch = (SUBTAG_CHAVE@, chave);
    lema_campo_literal(SUBTAG_GUI@, PIX_GUI@);
    assert(campo_curto(ch));
    lema_tamanho_campo(SUBTAG_CHAVE@, chave);
    let sub26 = seq![gui, ch];
    assert(texto_campos(sub26) =~= conteudo_merchant(chave)) by {
        reveal_with_fuel(texto_campos, 3);
        assert(sub26.drop_first() =~= seq![ch]);
        assert(seq![ch].drop_first() =~= Seq::<(Seq<char>, Seq<char>)>::empty());
    }
    assert forall|i: int| 0 <= i < sub26.len() implies campo_curto(#[trigger] sub26[i]) by {
    }
    lema_ler_campos(sub26);
    lema_utf8_concatenacao(campo_tlv(SUBTAG_GUI@, PIX_GUI@), campo_tlv(SUBTAG_CHAVE@, chave));
    let tx = (SUBTAG_TXID@, DEFAULT_TXID@);
    lema_campo_literal(SUBTAG_TXID@, DEFAULT_TXID@);
    let sub62 = seq![tx];
    assert(texto_campos(sub62) =~= campo_tlv(SUBTAG_TXID@, DEFAULT_TXID@)) by {
        reveal_with_fuel(texto_campos, 2);
        assert(sub62.drop_first() =~= Seq::<(Seq<char>, Seq<char>)>::empty());
    }
    assert forall|i: int| 0 <= i < sub62.len() implies campo_curto(#[trigger] sub62[i]) by {
    }
    lema_ler_campos(sub62);
}

/// Todos os campos do payload são curtos quando a chave, o nome, a cidade e o
/// valor cabem nos seus limites.
proof fn lema_campos_curtos(d: DadosPix, nome: Seq<char>, cidade: Seq<char>)
    requires
        encode_utf8(d.chave@).len() <= 77,
        encode_utf8(nome).len() <= 25,
        encode_utf8(cidade).len() <= 15,
        d.valor matches Some(v) ==> (v.positivo ==> encode_utf8(v.texto@).len() < 100),
    ensures
        forall|i: int| 0 <= i < campos_payload(d, nome, cidade).len()
            ==> campo_curto(#[trigger] campos_payload(d, nome, cidade)[i]),
{
    lema_literais();
    lema_subcampos(d.chave@);
    let corpo = corpo_payload(d, nome, cidade);
    let hex = texto_crc(corpo);
    lema_texto_crc(corpo);
    let metodo = metodo_iniciacao(d.valor is Some);
    let a = seq![
        (TAG_PAYLOAD_FORMAT@, FORMATO_PAYLOAD@),
        (TAG_INITIATION_METHOD@, metodo),
        (TAG_MERCHANT_ACCOUNT@, conteudo_merchant(d.chave@)),
        (TAG_CATEGORY_CODE@, MCC_GENERIC@),
        (TAG_CURRENCY@, CURRENCY_BRL@),
    ];
    lema_campo_literal(TAG_PAYLOAD_FORMAT@, FORMATO_PAYLOAD@);
    lema_campo_literal(TAG_INITIATION_METHOD@, metodo);
    lema_campo_literal(TAG_CATEGORY_CODE@, MCC_GENERIC@);
    lema_campo_literal(TAG_CURRENCY@, CURRENCY_BRL@);
    assert forall|i: int| 0 <= i < a.len() implies campo_curto(#[trigger] a[i]) by {
    }
    let l = lista_valor(d.valor);
    assert forall|i: int| 0 <= i < l.len() implies campo_curto(#[trigger] l[i]) by {
    }
    let b = seq![
        (TAG_COUNTRY@, COUNTRY_BR@),
        (TAG_MERCHANT_NAME@, nome),
        (TAG_MERCHANT_CITY@, cidade),
        (TAG_ADDITIONAL_DATA@, campo_tlv(SUBTAG_TXID@, DEFAULT_TXID@)),
        (TAG_CRC@, hex),
    ];
    lema_campo_literal(TAG_COUNTRY@, COUNTRY_BR@);
    assert forall|i: int| 0 <= i < b.len() implies campo_curto(#[trigger] b[i]) by {
    }
    assert(campos_payload(d, nome, cidade) =~= a + l + b);
    lema_curtos_concat(a, l);
    lema_curtos_concat(a + l, b);
}

/// O payload é a sequência dos seus campos TLV, e os bytes dele se dividem de
/// volta nesses campos, em ordem; o campo 26 se divide no GUI do PIX e na
/// chave, e o campo 62 no txid. Vale quando a chave tem até 77 bytes e o
/// valor menos de 100, para que cada tamanho caiba em dois dígitos.
pub proof fn lema_campos_do_payload(d: DadosPix)
    requires
        payload_calculavel(d),
        resultado_payload(d) is Ok,
        encode_utf8(d.chave@).len() <= 77,
        d.valor matches Some(v) ==> (v.positivo ==> encode_utf8(v.texto@).len() < 100),
    ensures
        ({
            let nome = normalizado(d.nome@, MAX_NOME as nat);
            let cidade = normalizado(d.cidade@, MAX_CIDADE as nat);
            let p = resultado_payload(d)->Ok_0;
            let campos = campos_payload(d, nome, cidade);
            &&& p == texto_campos(campos)
            &&& ler_campos(encode_utf8(p)) == Some(bytes_campos(campos))
            &&& ler_campos(encode_utf8(conteudo_merchant(d.chave@)))
                == Some(bytes_campos(seq![(SUBTAG_GUI@, PIX_GUI@), (SUBTAG_CHAVE@, d.chave@)]))
            &&& ler_campos(encode_utf8(campo_tlv(SUBTAG_TXID@, DEFAULT_TXID@)))
                == Some(bytes_campos(seq![(SUBTAG_TXID@, DEFAULT_TXID@)]))
        }),
{
    let nome = normalizado(d.nome@, MAX_NOME as nat);
    let cidade = normalizado(d.cidade@, MAX_CIDADE as nat);
    lema_bytes_do_prefixo(preparado(d.nome@), MAX_NOME as nat);
    lema_bytes_do_prefixo(preparado(d.cidade@), MAX_CIDADE as nat);
    lema_subcampos(d.chave@);
    lema_campos_curtos(d, nome, cidade);
    lema_texto_do_payload(d, nome, cidade);
    lema_ler_campos(campos_payload(d, nome, cidade));
}

} // verus!
