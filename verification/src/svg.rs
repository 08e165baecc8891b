//! Desenho do QR Code em SVG.

use vstd::prelude::*;
use vstd::string::*;
use crate::qr::{bem_formado, dimensoes_cabem, lado_imagem, CodigoQr, SimboloQr};
use crate::texto::{decimal, escrever_decimal};

verus! {

pub const SVG_INICIO: &'static str = "<?xml version=\"1.0\" encoding=\"UTF-8\"?>\n<svg xmlns=\"http://www.w3.org/2000/svg\" version=\"1.1\" width=\"";
pub const SVG_ALTURA: &'static str = "\" height=\"";
pub const SVG_VIEWBOX: &'static str = "\" viewBox=\"0 0 ";
pub const SVG_ESPACO: &'static str = " ";
pub const SVG_FECHA_TAG: &'static str = "\">\n";
pub const SVG_FUNDO_INICIO: &'static str = "  <rect width=\"";
pub const SVG_FUNDO_FIM: &'static str = "\" fill=\"white\"/>\n";
pub const SVG_RET_X: &'static str = "  <rect x=\"";
pub const SVG_RET_Y: &'static str = "\" y=\"";
pub const SVG_RET_LARGURA: &'static str = "\" width=\"";
pub const SVG_RET_FIM: &'static str = "\" fill=\"black\"/>\n";
pub const SVG_FIM: &'static str = "</svg>\n";

/// O cabeçalho XML e a abertura do elemento `svg` de lado `t`.
pub open spec fn cabecalho_svg(t: nat) -> Seq<char> {
    SVG_INICIO@ + decimal(t) + SVG_ALTURA@ + decimal(t) + SVG_VIEWBOX@ + decimal(t) + SVG_ESPACO@
        + decimal(t) + SVG_FECHA_TAG@
}

/// O retângulo branco do fundo, de lado `t`.
pub open spec fn fundo_svg(t: nat) -> Seq<char> {
    SVG_FUNDO_INICIO@ + decimal(t) + SVG_ALTURA@ + decimal(t) + SVG_FUNDO_FIM@
}

/// O retângulo preto de lado `tamanho` na posição `(px, py)`.
pub open spec fn retangulo_svg(px: nat, py: nat, tamanho: nat) -> Seq<char> {
    SVG_RET_X@ + decimal(px) + SVG_RET_Y@ + decimal(py) + SVG_RET_LARGURA@ + decimal(tamanho)
        + SVG_ALTURA@ + decimal(tamanho) + SVG_RET_FIM@
}

/// Os retângulos dos módulos escuros entre os `k` primeiros (linha a linha):
/// o módulo `i` fica na coluna `i % largura` e na linha `i / largura`,
/// deslocado pela margem.
pub open spec fn retangulos_svg(s: SimboloQr, margem: nat, tamanho: nat, k: nat) -> Seq<char>
    decreases k,
{
    if k == 0 || s.largura == 0 {
        Seq::empty()
    } else {
        let i = (k - 1) as nat;
        retangulos_svg(s, margem, tamanho, i) + if s.modulos[i as int] {
            retangulo_svg(
                ((i % s.largura) + margem) * tamanho,
                ((i / s.largura) + margem) * tamanho,
                tamanho,
            )
        } else {
            Seq::empty()
        }
    }
}

/// O documento SVG do QR Code: cabeçalho, fundo branco, um retângulo preto
/// por módulo escuro, fechamento.
pub open spec fn documento_svg(s: SimboloQr, margem: nat, tamanho: nat) -> Seq<char> {
    let t = lado_imagem(s.largura, margem, tamanho);
    cabecalho_svg(t) + fundo_svg(t) + retangulos_svg(s, margem, tamanho, s.largura * s.largura)
        + SVG_FIM@
}

/// A posição do módulo `y * largura + x` é a coluna `x` e a linha `y`.
proof fn lema_posicao(x: nat, y: nat, largura: nat)
    requires
        x < largura,
    ensures
        (y * largura + x) % largura == x,
        (y * largura + x) / largura == y,
{
    vstd::arithmetic::div_mod::lemma_fundamental_div_mod_converse(
        (y * largura + x) as int,
        largura as int,
        y as int,
        x as int,
    );
}

/// Monta o documento SVG do QR Code.
pub fn montar_svg(codigo: &CodigoQr, tamanho_modulo: u32, margem: u32) -> (r: String)
    requires
        dimensoes_cabem(codigo@.largura, margem as nat, tamanho_modulo as nat),
    ensures
        r@ == documento_svg(codigo@, margem as nat, tamanho_modulo as nat),
{
    let matriz = codigo.modulos();
    let largura_qr = codigo.largura() as u32;
    let tamanho_total = (largura_qr + margem * 2) * tamanho_modulo;

    let mut svg = String::new();
    svg.append(SVG_INICIO);
    escrever_decimal(&mut svg, tamanho_total as u64);
    svg.append(SVG_ALTURA);
    escrever_decimal(&mut svg, tamanho_total as u64);
    svg.append(SVG_VIEWBOX);
    escrever_decimal(&mut svg, tamanho_total as u64);
    svg.append(SVG_ESPACO);
    escrever_decimal(&mut svg, tamanho_total as u64);
    svg.append(SVG_FECHA_TAG);

    svg.append(SVG_FUNDO_INICIO);
    escrever_decimal(&mut svg, tamanho_total as u64);
    svg.append(SVG_ALTURA);
    escrever_decimal(&mut svg, tamanho_total as u64);
    svg.append(SVG_FUNDO_FIM);

    let ghost s = codigo@;
    let ghost base = svg@;
    let ghost l = largura_qr as nat;
    assert(base =~= cabecalho_svg(tamanho_total as nat) + fundo_svg(tamanho_total as nat));
    assert(l * l <= 177 * 177) by (nonlinear_arith)
        requires
            l <= 177,
    ;

    let mut y: u32 = 0;
    while y < largura_qr
        invariant
            s == codigo@,
            bem_formado(s),
            l == s.largura,
            l == largura_qr,
            l * l <= 177 * 177,
            matriz@ == s.modulos,
            y <= largura_qr,
            tamanho_total == lado_imagem(l, margem as nat, tamanho_modulo as nat),
            dimensoes_cabem(l, margem as nat, tamanho_modulo as nat),
            svg@ == base + retangulos_svg(s, margem as nat, tamanho_modulo as nat, (y * l) as nat),
        decreases largura_qr - y,
    {
        let mut x: u32 = 0;
        while x < largura_qr
            invariant
                s == codigo@,
                bem_formado(s),
                l == s.largura,
                l == largura_qr,
                l * l <= 177 * 177,
                matriz@ == s.modulos,
                y < largura_qr,
                x <= largura_qr,
                tamanho_total == lado_imagem(l, margem as nat, tamanho_modulo as nat),
                dimensoes_cabem(l, margem as nat, tamanho_modulo as nat),
                svg@ == base + retangulos_svg(s, margem as nat, tamanho_modulo as nat, (y * l + x) as nat),
            decreases largura_qr - x,
        {
            assert(y * l + x < l * l) by (nonlinear_arith)
                requires
                    y < l,
                    x < l,
            ;
            let indice = (y * largura_qr + x) as usize;
            proof {
                lema_posicao(x as nat, y as nat, l);
            }
            if matriz[indice] {
                assert((x + margem) * tamanho_modulo <= tamanho_total
                    && (y + margem) * tamanho_modulo <= tamanho_total) by (nonlinear_arith)
                    requires
                        x < l,
                        y < l,
                        tamanho_total == (l + margem * 2) * tamanho_modulo,
                ;
                let px = (x + margem) * tamanho_modulo;
                let py = (y + margem) * tamanho_modulo;
                svg.append(SVG_RET_X);
                escrever_decimal(&mut svg, px as u64);
                svg.append(SVG_RET_Y);
                escrever_decimal(&mut svg, py as u64);
                svg.append(SVG_RET_LARGURA);
                escrever_decimal(&mut svg, tamanho_modulo as u64);
                svg.append(SVG_ALTURA);
                escrever_decimal(&mut svg, tamanho_modulo as u64);
                svg.append(SVG_RET_FIM);
            }
            assert(svg@ =~= base + retangulos_svg(s, margem as nat, tamanho_modulo as nat, (y * l + x + 1) as nat));
            x = x + 1;
        }
        assert((y + 1) * l == y * l + l) by (nonlinear_arith);
        y = y + 1;
    }

    svg.append(SVG_FIM);
    assert(svg@ =~= documento_svg(s, margem as nat, tamanho_modulo as nat));
    svg
}

// ── Propriedades do documento ───────────────────────────────────────────────

/// As posições, em pixels, dos cantos dos módulos escuros entre os `k`
/// primeiros, na ordem em que aparecem no documento.
pub open spec fn posicoes_escuras(s: SimboloQr, margem: nat, tamanho: nat, k: nat) -> Seq<(nat, nat)>
    decreases k,
{
    if k == 0 || s.largura == 0 {
        Seq::empty()
    } else {
        let i = (k - 1) as nat;
        posicoes_escuras(s, margem, tamanho, i) + if s.modulos[i as int] {
            seq![(((i % s.largura) + margem) * tamanho, ((i / s.largura) + margem) * tamanho)]
        } else {
            Seq::empty()
        }
    }
}

/// Os retângulos pretos nas posições dadas, em ordem.
pub open spec fn texto_retangulos(ps: Seq<(nat, nat)>, tamanho: nat) -> Seq<char>
    decreases ps.len(),
{
    if ps.len() == 0 {
        Seq::empty()
    } else {
        texto_retangulos(ps.drop_last(), tamanho) + retangulo_svg(ps.last().0, ps.last().1, tamanho)
    }
}

/// Quantos dos `k` primeiros módulos são escuros.
pub open spec fn quantos_escuros(modulos: Seq<bool>, k: nat) -> nat
    decreases k,
{
    if k == 0 {
        0
    } else {
        quantos_escuros(modulos, (k - 1) as nat) + if modulos[k - 1] { 1nat } else { 0nat }
    }
}

/// A posição fica no interior da imagem, fora da margem: o quadrado de lado
/// `tamanho` que começa nela cabe entre `margem × tamanho` e
/// `(margem + largura) × tamanho` nos dois eixos.
pub open spec fn no_interior(p: (nat, nat), largura: nat, margem: nat, tamanho: nat) -> bool {
    &&& margem * tamanho <= p.0
    &&& p.0 + tamanho <= (margem + largura) * tamanho
    &&& margem * tamanho <= p.1
    &&& p.1 + tamanho <= (margem + largura) * tamanho
}

/// O quociente e o resto de um índice de módulo pela largura são coluna e
/// linha dentro do símbolo.
proof fn lema_coluna_linha(i: nat, largura: nat)
    requires
        i < largura * largura,
    ensures
        i % largura < largura,
        i / largura < largura,
{
    vstd::arithmetic::div_mod::lemma_fundamental_div_mod(i as int, largura as int);
    let q = i / largura;
    if q >= largura {
        assert(largura * q >= largura * largura) by (nonlinear_arith)
            requires
                q >= largura,
        ;
    }
}

/// Os retângulos dos `k` primeiros módulos são os das posições escuras, uma
/// por módulo escuro, todas no interior.
proof fn lema_retangulos_ate(s: SimboloQr, margem: nat, tamanho: nat, k: nat)
    requires
        s.modulos.len() == s.largura * s.largura,
        k <= s.largura * s.largura,
    ensures
        retangulos_svg(s, margem, tamanho, k) == texto_retangulos(posicoes_escuras(s, margem, tamanho, k), tamanho),
        posicoes_escuras(s, margem, tamanho, k).len() == quantos_escuros(s.modulos, k),
        forall|j: int| 0 <= j < posicoes_escuras(s, margem, tamanho, k).len() ==>
            no_interior(#[trigger] posicoes_escuras(s, margem, tamanho, k)[j], s.largura, margem, tamanho),
    decreases k,
{
    if k > 0 && s.largura > 0 {
        let i = (k - 1) as nat;
        lema_retangulos_ate(s, margem, tamanho, i);
        let antes = posicoes_escuras(s, margem, tamanho, i);
        if s.modulos[i as int] {
            let l = s.largura;
            lema_coluna_linha(i, l);
            let a = i % l;
            let b = i / l;
            let p = ((a + margem) * tamanho, (b + margem) * tamanho);
            assert(no_interior(p, l, margem, tamanho)) by {
                assert(margem * tamanho <= (a + margem) * tamanho
                    && (a + margem) * tamanho + tamanho <= (margem + l) * tamanho) by (nonlinear_arith)
                    requires
                        a < l,
                ;
                assert(margem * tamanho <= (b + margem) * tamanho
                    && (b + margem) * tamanho + tamanho <= (margem + l) * tamanho) by (nonlinear_arith)
                    requires
                        b < l,
                ;
            }
            let depois = antes + seq![p];
            assert(depois.drop_last() =~= antes);
            assert forall|j: int| 0 <= j < depois.len() implies
                no_interior(#[trigger] depois[j], l, margem, tamanho) by {
                if j < antes.len() {
                    assert(depois[j] == antes[j]);
                }
            }
        } else {
            assert(antes + Seq::<(nat, nat)>::empty() =~= antes);
        }
    }
}

/// O documento SVG tem um retângulo preto por módulo escuro, em ordem, e
/// todos ficam no interior: a margem fica branca.
pub proof fn lema_documento_svg(s: SimboloQr, margem: nat, tamanho: nat)
    requires
        bem_formado(s),
    ensures
        ({
            let ps = posicoes_escuras(s, margem, tamanho, s.largura * s.largura);
            let t = lado_imagem(s.largura, margem, tamanho);
            &&& documento_svg(s, margem, tamanho)
                == cabecalho_svg(t) + fundo_svg(t) + texto_retangulos(ps, tamanho) + SVG_FIM@
            &&& ps.len() == quantos_escuros(s.modulos, s.largura * s.largura)
            &&& forall|j: int| 0 <= j < ps.len() ==> no_interior(#[trigger] ps[j], s.largura, margem, tamanho)
        }),
{
    lema_retangulos_ate(s, margem, tamanho, s.largura * s.largura);
}

/// O trecho aparece no texto, a partir de alguma posição.
pub open spec fn contem(texto: Seq<char>, trecho: Seq<char>) -> bool {
    exists|p: int| 0 <= p && p + trecho.len() <= texto.len() && #[trigger] texto.subrange(p, p + trecho.len()) == trecho
}

/// O retângulo preto do módulo escuro da coluna `coluna` e linha `linha`: o
/// atributo `x` é a coluna e o `y` é a linha, deslocadas pela margem e
/// multiplicadas pelo tamanho do módulo.
pub open spec fn retangulo_do_modulo(coluna: nat, linha: nat, margem: nat, tamanho: nat) -> Seq<char> {
    "  <rect x=\""@ + decimal((coluna + margem) * tamanho) + "\" y=\""@ + decimal((linha + margem) * tamanho)
        + "\" width=\""@ + decimal(tamanho) + "\" height=\""@ + decimal(tamanho)
        + "\" fill=\"black\"/>\n"@
}

/// Um trecho de uma parte de uma concatenação aparece na concatenação.
proof fn lema_contem_concat(a: Seq<char>, b: Seq<char>, trecho: Seq<char>)
    ensures
        contem(a, trecho) ==> contem(a + b, trecho),
        contem(b, trecho) ==> contem(a + b, trecho),
{
    if contem(a, trecho) {
        let p = choose|p: int| 0 <= p && p + trecho.len() <= a.len() && #[trigger] a.subrange(p, p + trecho.len()) == trecho;
        assert((a + b).subrange(p, p + trecho.len()) =~= a.subrange(p, p + trecho.len()));
    }
    if contem(b, trecho) {
        let p = choose|p: int| 0 <= p && p + trecho.len() <= b.len() && #[trigger] b.subrange(p, p + trecho.len()) == trecho;
        let q = a.len() + p;
        assert((a + b).subrange(q, q + trecho.len()) =~= b.subrange(p, p + trecho.len()));
    }
}

/// Os retângulos dos `k` primeiros módulos trazem o de cada módulo escuro
/// entre eles, na sua coluna e linha.
proof fn lema_modulo_nos_retangulos(s: SimboloQr, margem: nat, tamanho: nat, k: nat, coluna: nat, linha: nat)
    requires
        s.largura > 0,
        coluna < s.largura,
        linha * s.largura + coluna < k,
        s.modulos[(linha * s.largura + coluna) as int],
    ensures
        contem(retangulos_svg(s, margem, tamanho, k), retangulo_do_modulo(coluna, linha, margem, tamanho)),
    decreases k,
{
    let i = (k - 1) as nat;
    let alvo = retangulo_do_modulo(coluna, linha, margem, tamanho);
    let antes = retangulos_svg(s, margem, tamanho, i);
    let r = retangulos_svg(s, margem, tamanho, k);
    if i == linha * s.largura + coluna {
        lema_posicao(coluna, linha, s.largura);
        assert(retangulo_svg(((i % s.largura) + margem) * tamanho, ((i / s.largura) + margem) * tamanho, tamanho) =~= alvo);
        assert(r == antes + alvo);
        assert(r.subrange(antes.len() as int, (antes.len() + alvo.len()) as int) =~= alvo);
    } else {
        lema_modulo_nos_retangulos(s, margem, tamanho, i, coluna, linha);
        let extra = if s.modulos[i as int] {
            retangulo_svg(((i % s.largura) + margem) * tamanho, ((i / s.largura) + margem) * tamanho, tamanho)
        } else {
            Seq::empty()
        };
        assert(r == antes + extra);
        lema_contem_concat(antes, extra, alvo);
    }
}

/// Cada módulo escuro, na coluna `coluna` e na linha `linha`, aparece no
/// documento SVG como um retângulo preto com `x` igual a
/// `(coluna + margem) × tamanho`, `y` igual a `(linha + margem) × tamanho` e
/// lado `tamanho`.
pub proof fn lema_modulo_escuro_no_svg(s: SimboloQr, margem: nat, tamanho: nat, coluna: nat, linha: nat)
    requires
        bem_formado(s),
        coluna < s.largura,
        linha < s.largura,
        s.modulos[(linha * s.largura + coluna) as int],
    ensures
        contem(documento_svg(s, margem, tamanho), retangulo_do_modulo(coluna, linha, margem, tamanho)),
{
    let l = s.largura;
    assert(linha * l + coluna < l * l) by (nonlinear_arith)
        requires
            linha < l,
            coluna < l,
    ;
    lema_modulo_nos_retangulos(s, margem, tamanho, l * l, coluna, linha);
    let t = lado_imagem(l, margem, tamanho);
    let alvo = retangulo_do_modulo(coluna, linha, margem, tamanho);
    let r = retangulos_svg(s, margem, tamanho, l * l);
    lema_contem_concat(cabecalho_svg(t) + fundo_svg(t), r, alvo);
    lema_contem_concat(cabecalho_svg(t) + fundo_svg(t) + r, SVG_FIM@, alvo);
}

} // verus!
