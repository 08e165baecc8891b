//! Desenho do QR Code numa imagem em tons de cinza.

use vstd::prelude::*;
use vstd::arithmetic::div_mod::{lemma_fundamental_div_mod, lemma_fundamental_div_mod_converse};
use image::{ImageBuffer, Luma};
use crate::qr::{bem_formado, dimensoes_cabem, lado_imagem, CodigoQr, SimboloQr};

verus! {

/// Uma imagem em tons de cinza (um `ImageBuffer<Luma<u8>, Vec<u8>>` de image).
#[verifier::external_body]
pub struct ImagemCinza {
    imagem: ImageBuffer<Luma<u8>, Vec<u8>>,
}

/// Os pixels de uma imagem: a cada coordenada `(x, y)` dentro dela, o valor.
pub uninterp spec fn pixels(img: ImagemCinza) -> Map<(u32, u32), u8>;

/// A largura e a altura com que a imagem foi criada.
pub uninterp spec fn dimensoes(img: ImagemCinza) -> (u32, u32);

/// As coordenadas de uma imagem `largura` × `altura`.
pub open spec fn dentro(p: (u32, u32), largura: nat, altura: nat) -> bool {
    p.0 < largura && p.1 < altura
}

/// Os pixels de uma imagem `largura` × `altura` toda com o valor `valor`.
pub open spec fn pixels_uniformes(largura: u32, altura: u32, valor: u8) -> Map<(u32, u32), u8> {
    Map::new(|p: (u32, u32)| dentro(p, largura as nat, altura as nat), |p: (u32, u32)| valor)
}

/// Cria uma imagem em tons de cinza toda com o mesmo valor.
///
/// Chama `ImageBuffer::from_pixel` de image. O contrato afirma as dimensões
/// e que todas as coordenadas `x < largura`, `y < altura` têm `valor`.
/// `ImageBuffer::new` entra em pânico se largura × altura não couber em
/// `usize`.
#[verifier::external_body]
fn imagem_uniforme(largura: u32, altura: u32, valor: u8) -> (r: ImagemCinza)
    requires
        largura * altura <= usize::MAX,
    ensures
        pixels(r) == pixels_uniformes(largura, altura, valor),
        dimensoes(r) == (largura, altura),
{
    ImagemCinza { imagem: ImageBuffer::from_pixel(largura, altura, Luma([valor])) }
}

/// Muda o valor de um pixel.
///
/// Chama `ImageBuffer::put_pixel` de image, que entra em pânico fora da
/// imagem. O contrato afirma que só o pixel `(x, y)` muda, para `valor`, e
/// que as dimensões não mudam.
#[verifier::external_body]
fn pintar_pixel(img: &mut ImagemCinza, x: u32, y: u32, valor: u8)
    requires
        pixels(*old(img)).dom().contains((x, y)),
    ensures
        pixels(*final(img)) == pixels(*old(img)).insert((x, y), valor),
        dimensoes(*final(img)) == dimensoes(*old(img)),
{
    img.imagem.put_pixel(x, y, Luma([valor]));
}

impl ImagemCinza {
    /// Os bytes da imagem, linha a linha (um byte por pixel).
    ///
    /// Chama `ImageBuffer::into_raw` de image, cujo buffer guarda o pixel
    /// `(x, y)` na posição `y * largura + x`.
    #[verifier::external_body]
    pub fn em_bytes(self) -> (r: Vec<u8>)
        ensures
            r@.len() == dimensoes(self).0 * dimensoes(self).1,
            forall|x: u32, y: u32|
                #![trigger pixels(self)[(x, y)]]
                dentro((x, y), dimensoes(self).0 as nat, dimensoes(self).1 as nat)
                    ==> r@[y * dimensoes(self).0 + x] == pixels(self)[(x, y)],
    {
        self.imagem.into_raw()
    }
}

/// Valor de um pixel preto.
pub const PRETO: u8 = 0;
/// Valor de um pixel branco.
pub const BRANCO: u8 = 255;

/// O pixel `(x, y)` cai num módulo escuro: com módulos de `tamanho` pixels,
/// ele está na coluna de módulos `x / tamanho` e na linha `y / tamanho`,
/// deslocadas pela margem.
pub open spec fn escuro_no_pixel(s: SimboloQr, margem: nat, tamanho: nat, x: nat, y: nat) -> bool {
    &&& tamanho > 0
    &&& margem <= x / tamanho < margem + s.largura
    &&& margem <= y / tamanho < margem + s.largura
    &&& s.modulos[(y / tamanho - margem) * s.largura + (x / tamanho - margem)]
}

/// Os pixels da imagem do QR Code: um quadrado de lado
/// `(largura + 2 × margem) × tamanho`, preto nos módulos escuros, branco no
/// resto.
pub open spec fn imagem_qr(s: SimboloQr, margem: nat, tamanho: nat) -> Map<(u32, u32), u8> {
    let t = lado_imagem(s.largura, margem, tamanho);
    Map::new(
        |p: (u32, u32)| dentro(p, t, t),
        |p: (u32, u32)| if escuro_no_pixel(s, margem, tamanho, p.0 as nat, p.1 as nat) {
            PRETO
        } else {
            BRANCO
        },
    )
}

/// O índice do módulo em que cai um pixel escuro.
spec fn indice_do_pixel(s: SimboloQr, margem: nat, tamanho: nat, p: (u32, u32)) -> int {
    ((p.1 as nat) / tamanho - margem) * s.largura + ((p.0 as nat) / tamanho - margem)
}

/// Já foi pintado o pixel escuro `p` quando os módulos antes de `k` estão
/// pintados e, no módulo `k`, as linhas antes de `dy` e, na linha `dy`, as
/// colunas antes de `dx`.
spec fn pintado(s: SimboloQr, margem: nat, tamanho: nat, p: (u32, u32), k: int, dy: int, dx: int) -> bool {
    &&& escuro_no_pixel(s, margem, tamanho, p.0 as nat, p.1 as nat)
    &&& {
        let i = indice_do_pixel(s, margem, tamanho, p);
        ||| i < k
        ||| i == k && ((p.1 as nat) % tamanho < dy || ((p.1 as nat) % tamanho == dy && (p.0 as nat) % tamanho < dx))
    }
}

/// Os pixels da imagem durante o desenho.
spec fn imagem_parcial(s: SimboloQr, margem: nat, tamanho: nat, k: int, dy: int, dx: int) -> Map<(u32, u32), u8> {
    let t = lado_imagem(s.largura, margem, tamanho);
    Map::new(
        |p: (u32, u32)| dentro(p, t, t),
        |p: (u32, u32)| if pintado(s, margem, tamanho, p, k, dy, dx) {
            PRETO
        } else {
            BRANCO
        },
    )
}

/// Um número é o seu quociente vezes o divisor mais o seu resto.
proof fn lema_divisao(n: int, d: int)
    requires
        n >= 0,
        d > 0,
    ensures
        n == (n / d) * d + n % d,
        0 <= n % d < d,
        n / d >= 0,
{
    lemma_fundamental_div_mod(n, d);
    assert(d * (n / d) == (n / d) * d) by (nonlinear_arith);
}

/// Pintar o pixel `(dx, dy)` do módulo escuro `k = y × largura + x` avança o
/// desenho um pixel.
proof fn lema_pintar_um(s: SimboloQr, margem: nat, tamanho: nat, x: nat, y: nat, dy: nat, dx: nat)
    requires
        bem_formado(s),
        x < s.largura,
        y < s.largura,
        dy < tamanho,
        dx < tamanho,
        s.modulos[(y * s.largura + x) as int],
    ensures
        ({
            let k = (y * s.largura + x) as int;
            let q = (((x + margem) * tamanho + dx) as u32, ((y + margem) * tamanho + dy) as u32);
            let t = lado_imagem(s.largura, margem, tamanho);
            (t <= u32::MAX) ==> {
                &&& imagem_parcial(s, margem, tamanho, k, dy as int, dx as int).dom().contains(q)
                &&& imagem_parcial(s, margem, tamanho, k, dy as int, dx as int).insert(q, PRETO)
                    == imagem_parcial(s, margem, tamanho, k, dy as int, (dx + 1) as int)
            }
        }),
{
    let l = s.largura;
    let k = (y * l + x) as int;
    let t = lado_imagem(l, margem, tamanho);
    if t <= u32::MAX {
        let qx = (x + margem) * tamanho + dx;
        let qy = (y + margem) * tamanho + dy;
        assert(qx < t && qy < t) by (nonlinear_arith)
            requires
                x < l,
                y < l,
                dx < tamanho,
                dy < tamanho,
                t == (l + margem * 2) * tamanho,
                qx == (x + margem) * tamanho + dx,
                qy == (y + margem) * tamanho + dy,
        ;
        let q = (qx as u32, qy as u32);
        lemma_fundamental_div_mod_converse(qx as int, tamanho as int, (x + margem) as int, dx as int);
        lemma_fundamental_div_mod_converse(qy as int, tamanho as int, (y + margem) as int, dy as int);
        assert(indice_do_pixel(s, margem, tamanho, q) == k);
        assert(pintado(s, margem, tamanho, q, k, dy as int, (dx + 1) as int));
        let antes = imagem_parcial(s, margem, tamanho, k, dy as int, dx as int);
        let depois = imagem_parcial(s, margem, tamanho, k, dy as int, (dx + 1) as int);
        assert forall|p: (u32, u32)| #[trigger] dentro(p, t, t) && p != q implies
            pintado(s, margem, tamanho, p, k, dy as int, (dx + 1) as int)
                == pintado(s, margem, tamanho, p, k, dy as int, dx as int) by {
            if pintado(s, margem, tamanho, p, k, dy as int, (dx + 1) as int)
                && !pintado(s, margem, tamanho, p, k, dy as int, dx as int) {
                let mx = (p.0 as nat) / tamanho;
                let my = (p.1 as nat) / tamanho;
                lema_divisao(p.0 as int, tamanho as int);
                lema_divisao(p.1 as int, tamanho as int);
                let i = indice_do_pixel(s, margem, tamanho, p);
                assert(i == k);
                lemma_fundamental_div_mod_converse(i, l as int, (my - margem) as int, (mx - margem) as int);
                lemma_fundamental_div_mod_converse(k, l as int, y as int, x as int);
                assert(p.0 == qx);
                assert(p.1 == qy);
            }
        }
        assert(antes.insert(q, PRETO) =~= depois);
    }
}

/// Desenha o QR Code numa imagem em tons de cinza: fundo branco e cada
/// módulo escuro como um quadrado preto de `tamanho_modulo` pixels,
/// deslocado pela margem.
pub fn desenhar_png(codigo: &CodigoQr, tamanho_modulo: u32, margem: u32) -> (r: ImagemCinza)
    requires
        dimensoes_cabem(codigo@.largura, margem as nat, tamanho_modulo as nat),
        lado_imagem(codigo@.largura, margem as nat, tamanho_modulo as nat)
            * lado_imagem(codigo@.largura, margem as nat, tamanho_modulo as nat) <= usize::MAX,
    ensures
        pixels(r) == imagem_qr(codigo@, margem as nat, tamanho_modulo as nat),
        dimensoes(r) == (
            lado_imagem(codigo@.largura, margem as nat, tamanho_modulo as nat) as u32,
            lado_imagem(codigo@.largura, margem as nat, tamanho_modulo as nat) as u32,
        ),
{
    let matriz = codigo.modulos();
    let largura_qr = codigo.largura() as u32;
    let tamanho_total = (largura_qr + margem * 2) * tamanho_modulo;
    let ghost s = codigo@;
    let ghost l = largura_qr as nat;
    let ghost m = margem as nat;
    let ghost tam = tamanho_modulo as nat;

    let mut imagem = imagem_uniforme(tamanho_total, tamanho_total, BRANCO);
    assert(pixels(imagem) =~= imagem_parcial(s, m, tam, 0, 0, 0));
    assert(l * l <= 177 * 177) by (nonlinear_arith)
        requires
            l <= 177,
    ;

    let mut y: u32 = 0;
    while y < largura_qr
        invariant
            s == codigo@,
            bem_formado(s),
            l == s.largura,
            l == largura_qr,
            l * l <= 177 * 177,
            m == margem,
            tam == tamanho_modulo,
            matriz@ == s.modulos,
            y <= largura_qr,
            tamanho_total == lado_imagem(l, m, tam),
            dimensoes_cabem(l, m, tam),
            dimensoes(imagem) == (tamanho_total, tamanho_total),
            pixels(imagem) == imagem_parcial(s, m, tam, y * l, 0, 0),
        decreases largura_qr - y,
    {
        let mut x: u32 = 0;
        while x < largura_qr
            invariant
                s == codigo@,
                bem_formado(s),
                l == s.largura,
                l == largura_qr,
                l * l <= 177 * 177,
                m == margem,
                tam == tamanho_modulo,
                matriz@ == s.modulos,
                y < largura_qr,
                x <= largura_qr,
                tamanho_total == lado_imagem(l, m, tam),
                dimensoes_cabem(l, m, tam),
                dimensoes(imagem) == (tamanho_total, tamanho_total),
                pixels(imagem) == imagem_parcial(s, m, tam, y * l + x, 0, 0),
            decreases largura_qr - x,
        {
            assert(y * l + x < l * l) by (nonlinear_arith)
                requires
                    y < l,
                    x < l,
            ;
            let indice = (y * largura_qr + x) as usize;
            let ghost k = (y * l + x) as int;
            if matriz[indice] {
                assert((x + margem) * tamanho_modulo + tamanho_modulo <= tamanho_total
                    && (y + margem) * tamanho_modulo + tamanho_modulo <= tamanho_total) by (nonlinear_arith)
                    requires
                        x < l,
                        y < l,
                        tamanho_total == (l + margem * 2) * tamanho_modulo,
                ;
                let px_inicio = (x + margem) * tamanho_modulo;
                let py_inicio = (y + margem) * tamanho_modulo;

                let mut dy: u32 = 0;
                while dy < tamanho_modulo
                    invariant
                        s == codigo@,
                        bem_formado(s),
                        l == s.largura,
                        m == margem,
                        tam == tamanho_modulo,
                        x < l,
                        y < l,
                        k == y * l + x,
                        0 <= k < s.modulos.len(),
                        s.modulos[k],
                        dy <= tamanho_modulo,
                        px_inicio == (x + margem) * tamanho_modulo,
                        py_inicio == (y + margem) * tamanho_modulo,
                        px_inicio + tamanho_modulo <= tamanho_total,
                        py_inicio + tamanho_modulo <= tamanho_total,
                        tamanho_total == lado_imagem(l, m, tam),
                        dimensoes(imagem) == (tamanho_total, tamanho_total),
                        pixels(imagem) == imagem_parcial(s, m, tam, k, dy as int, 0),
                    decreases tamanho_modulo - dy,
                {
                    let mut dx: u32 = 0;
                    while dx < tamanho_modulo
                        invariant
                            s == codigo@,
                            bem_formado(s),
                            l == s.largura,
                            m == margem,
                            tam == tamanho_modulo,
                            x < l,
                            y < l,
                            k == y * l + x,
                            0 <= k < s.modulos.len(),
                            s.modulos[k],
                            dy < tamanho_modulo,
                            dx <= tamanho_modulo,
                            px_inicio == (x + margem) * tamanho_modulo,
                            py_inicio == (y + margem) * tamanho_modulo,
                            px_inicio + tamanho_modulo <= tamanho_total,
                            py_inicio + tamanho_modulo <= tamanho_total,
                            tamanho_total == lado_imagem(l, m, tam),
                            dimensoes(imagem) == (tamanho_total, tamanho_total),
                            pixels(imagem) == imagem_parcial(s, m, tam, k, dy as int, dx as int),
                        decreases tamanho_modulo - dx,
                    {
                        proof {
                            lema_pintar_um(s, m, tam, x as nat, y as nat, dy as nat, dx as nat);
                        }
                        pintar_pixel(&mut imagem, px_inicio + dx, py_inicio + dy, PRETO);
                        dx = dx + 1;
                    }
                    proof {
                        lema_linha_completa(s, m, tam, k, dy as int);
                    }
                    dy = dy + 1;
                }
                proof {
                    lema_modulo_completo(s, m, tam, k);
                }
            } else {
                proof {
                    lema_modulo_claro(s, m, tam, k);
                }
            }
            x = x + 1;
        }
        assert((y + 1) * l == y * l + l) by (nonlinear_arith);
        y = y + 1;
    }
    proof {
        lema_desenho_completo(s, m, tam);
    }
    imagem
}

/// Terminada a linha `dy` do módulo `k`, o desenho passa à linha seguinte.
proof fn lema_linha_completa(s: SimboloQr, margem: nat, tamanho: nat, k: int, dy: int)
    requires
        tamanho > 0,
    ensures
        imagem_parcial(s, margem, tamanho, k, dy, tamanho as int)
            == imagem_parcial(s, margem, tamanho, k, dy + 1, 0),
{
    let t = lado_imagem(s.largura, margem, tamanho);
    assert forall|p: (u32, u32)| #[trigger] dentro(p, t, t) implies
        pintado(s, margem, tamanho, p, k, dy, tamanho as int)
            == pintado(s, margem, tamanho, p, k, dy + 1, 0) by {
        lema_divisao(p.0 as int, tamanho as int);
        lema_divisao(p.1 as int, tamanho as int);
    }
    assert(imagem_parcial(s, margem, tamanho, k, dy, tamanho as int)
        =~= imagem_parcial(s, margem, tamanho, k, dy + 1, 0));
}

/// Terminado o módulo `k`, o desenho passa ao módulo seguinte.
proof fn lema_modulo_completo(s: SimboloQr, margem: nat, tamanho: nat, k: int)
    ensures
        imagem_parcial(s, margem, tamanho, k, tamanho as int, 0)
            == imagem_parcial(s, margem, tamanho, k + 1, 0, 0),
{
    let t = lado_imagem(s.largura, margem, tamanho);
    assert forall|p: (u32, u32)| #[trigger] dentro(p, t, t) implies
        pintado(s, margem, tamanho, p, k, tamanho as int, 0)
            == pintado(s, margem, tamanho, p, k + 1, 0, 0) by {
        if tamanho > 0 {
            lema_divisao(p.0 as int, tamanho as int);
            lema_divisao(p.1 as int, tamanho as int);
        }
    }
    assert(imagem_parcial(s, margem, tamanho, k, tamanho as int, 0)
        =~= imagem_parcial(s, margem, tamanho, k + 1, 0, 0));
}

/// Um módulo claro não pinta nada.
proof fn lema_modulo_claro(s: SimboloQr, margem: nat, tamanho: nat, k: int)
    requires
        0 <= k < s.modulos.len(),
        !s.modulos[k],
    ensures
        imagem_parcial(s, margem, tamanho, k, 0, 0)
            == imagem_parcial(s, margem, tamanho, k + 1, 0, 0),
{
    let t = lado_imagem(s.largura, margem, tamanho);
    assert forall|p: (u32, u32)| #[trigger] dentro(p, t, t) implies
        pintado(s, margem, tamanho, p, k, 0, 0)
            == pintado(s, margem, tamanho, p, k + 1, 0, 0) by {
    }
    assert(imagem_parcial(s, margem, tamanho, k, 0, 0)
        =~= imagem_parcial(s, margem, tamanho, k + 1, 0, 0));
}

/// Pintados todos os módulos, a imagem é a do QR Code.
proof fn lema_desenho_completo(s: SimboloQr, margem: nat, tamanho: nat)
    requires
        bem_formado(s),
    ensures
        imagem_parcial(s, margem, tamanho, (s.largura * s.largura) as int, 0, 0)
            == imagem_qr(s, margem, tamanho),
{
    let l = s.largura;
    let t = lado_imagem(l, margem, tamanho);
    assert forall|p: (u32, u32)| #[trigger] dentro(p, t, t) implies
        pintado(s, margem, tamanho, p, (l * l) as int, 0, 0)
            == escuro_no_pixel(s, margem, tamanho, p.0 as nat, p.1 as nat) by {
        if escuro_no_pixel(s, margem, tamanho, p.0 as nat, p.1 as nat) {
            let a = (p.1 as nat) / tamanho - margem;
            let b = (p.0 as nat) / tamanho - margem;
            assert(a * l + b < l * l) by (nonlinear_arith)
                requires
                    0 <= a < l,
                    0 <= b < l,
            ;
        }
    }
    assert(imagem_parcial(s, margem, tamanho, (l * l) as int, 0, 0) =~= imagem_qr(s, margem, tamanho));
}

} // verus!
