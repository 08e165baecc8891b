# qrcode_generator

Gerador de QR Codes (terminal, SVG, PNG) e de payloads PIX (BRCode), com a
lógica escrita em Verus e provada contra os seus contratos.

- `src/texto.rs` — dígitos, decimais, comparação e corte de textos por bytes UTF-8.
- `src/pix.rs` — campos TLV, normalização de nome e cidade, CRC-16/CCITT-FALSE e
  o payload completo, com as propriedades do CRC e do início do payload.
- `src/argumentos.rs` — interpretação da linha de comando.
- `src/qr.rs` — codificação do QR Code (crate `qrcode`), linhas de informação,
  desenho no terminal e dimensões das imagens.
- `src/svg.rs` — o documento SVG.
- `src/png.rs` — a imagem em tons de cinza (crate `image`).
- `app/main.rs` — o programa: argumentos, arquivos RON, gravação e impressão.
