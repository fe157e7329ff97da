//! The page on which a WhatsApp account is linked.

use crate::outside;
use crate::text;
use crate::trim;
use vstd::prelude::*;

verus! {

/// The page with a code, up to the address of its picture.
pub const QR_PAGE_HEAD: &'static str = r#"<!DOCTYPE html>
<html><head>
<meta charset="utf-8">
<meta name="viewport" content="width=device-width,initial-scale=1">
<title>Professor AI — Scan to Link</title>
<style>
  * { box-sizing: border-box; margin: 0; padding: 0; }
  body { background: #0a0a0a; color: #fff; min-height: 100vh; display: flex; flex-direction: column; align-items: center; justify-content: center; font-family: -apple-system, BlinkMacSystemFont, system-ui, sans-serif; padding: 24px; text-align: center; }
  h1 { font-size: 2em; margin-bottom: 8px; }
  .subtitle { color: #aaa; margin-bottom: 24px; font-size: 1.05em; }
  .qr-wrap { background: #fff; border-radius: 20px; padding: 20px; display: inline-block; margin-bottom: 20px; box-shadow: 0 0 60px rgba(37,211,102,0.3); }
  .qr-wrap img { display: block; width: 280px; height: 280px; }
  .timer { color: #25D366; font-size: 1.1em; font-weight: bold; margin-bottom: 8px; }
  .hint { color: #666; font-size: 0.85em; max-width: 400px; line-height: 1.6; }
  .steps { background: #111; border-radius: 12px; padding: 16px 24px; margin: 20px 0; text-align: left; max-width: 400px; }
  .steps li { color: #ccc; margin: 6px 0; font-size: 0.9em; }
  .bar { width: 280px; height: 4px; background: #222; border-radius: 4px; margin: 0 auto 8px; overflow: hidden; }
  .fill { height: 100%; background: #25D366; animation: drain 28s linear forwards; }
  @keyframes drain { from { width: 100%; } to { width: 0%; } }
</style>
</head>
<body>
<h1>🎓 Professor AI</h1>
<p class="subtitle">Scan with WhatsApp to connect your AI assistant</p>
<div class="qr-wrap">
  <img id="qrimg" src=""#;

/// The page with a code, behind the address of its picture.
pub const QR_PAGE_TAIL: &'static str = r#"" alt="WhatsApp QR Code">
</div>
<div class="bar"><div class="fill" id="fill"></div></div>
<p class="timer" id="timer">⏱ Refreshing in <span id="secs">28</span>s</p>
<ol class="steps">
  <li>Open <strong>WhatsApp</strong> on your phone</li>
  <li>Tap <strong>⋮ Menu → Linked Devices</strong></li>
  <li>Tap <strong>Link a Device</strong></li>
  <li>Point camera at the QR code above</li>
</ol>
<p class="hint">The QR code expires every 30 seconds. This page auto-refreshes it for you — just scan quickly once it appears!</p>
<script>
  let secs = 28;
  const secsEl = document.getElementById('secs');
  const timer = setInterval(() => {
    secs--;
    secsEl.textContent = secs;
    if (secs <= 0) {
      clearInterval(timer);
      window.location.reload();
    }
  }, 1000);
</script>
</body></html>"#;

/// The page without a code.
pub const WAITING_PAGE: &'static str = r#"<!DOCTYPE html>
<html><head>
<meta charset="utf-8">
<meta http-equiv="refresh" content="5">
<title>Professor AI</title>
<style>
  body {{ background: #0a0a0a; color: #fff; display: flex; flex-direction: column; align-items: center; justify-content: center; min-height: 100vh; font-family: system-ui; margin: 0; text-align: center; padding: 24px; }}
  h1 {{ font-size: 2.5em; margin-bottom: 12px; }}
  p {{ color: #aaa; max-width: 480px; line-height: 1.7; }}
  .dot {{ animation: pulse 1s infinite; display: inline-block; }}
  @keyframes pulse {{ 0%,100%{{ opacity:1; }} 50%{{ opacity:0.3; }} }}
</style>
</head>
<body>
<h1>⏳ Generating QR<span class="dot">...</span></h1>
<p>WhatsApp takes a few seconds to generate a fresh QR code after a restart.<br><strong>This page will auto-refresh every 5 seconds</strong> until the code is ready.</p>
</body></html>"#;

/// The characters that stand for themselves in the address of the picture.
pub open spec fn is_plain(c: char) -> bool {
    ||| 0x61 <= c as u32 <= 0x7A
    ||| 0x41 <= c as u32 <= 0x5A
    ||| 0x30 <= c as u32 <= 0x39
    ||| c == '-'
    ||| c == '_'
    ||| c == '.'
    ||| c == '~'
}

/// A character in the address of the picture: itself, or a percent sign and the lowest byte of its
/// code point in two digits.
pub open spec fn encoded_char(c: char) -> Seq<char> {
    if is_plain(c) {
        seq![c]
    } else {
        seq![
            '%',
            outside::hex_digit((c as u32) as int / 16 % 16),
            outside::hex_digit((c as u32) as int % 16),
        ]
    }
}

pub open spec fn encoded(t: Seq<char>) -> Seq<char>
    decreases t.len(),
{
    if t.len() == 0 {
        seq![]
    } else {
        encoded(t.drop_last()) + encoded_char(t.last())
    }
}

/// The page for the text of a code, where there is one.
pub open spec fn page(code: Option<Seq<char>>) -> Seq<char> {
    match code {
        Some(t) => if trim::trim(t).len() > 0 {
            QR_PAGE_HEAD@
                + "https://api.qrserver.com/v1/create-qr-code/?size=400x400&format=png&data="@
                + encoded(trim::trim(t)) + QR_PAGE_TAIL@
        } else {
            WAITING_PAGE@
        },
        None => WAITING_PAGE@,
    }
}

fn hex(n: u32) -> (r: char)
    requires
        n < 16,
    ensures
        r == outside::hex_digit(n as int),
{
    if n < 10 {
        (0x30 + n as u8) as char
    } else {
        (0x41 + (n - 10) as u8) as char
    }
}

fn push_encoded(r: &mut String, c: char)
    ensures
        final(r)@ == old(r)@ + encoded_char(c),
{
    let n = c as u32;
    let ghost before = r@;
    if (0x61 <= n && n <= 0x7A) || (0x41 <= n && n <= 0x5A) || (0x30 <= n && n <= 0x39) || c == '-'
        || c == '_' || c == '.' || c == '~' {
        r.push(c);
        assert(r@ =~= before + seq![c]);
    } else {
        r.push('%');
        r.push(hex(n / 16 % 16));
        r.push(hex(n % 16));
        assert(r@ =~= before + encoded_char(c));
    }
}

/// The page on which an account is linked, given the text of the code where there is one.
pub fn qr_page(code: &Option<String>) -> (r: String)
    ensures
        r@ == page(text::opt_view(*code)),
{
    match code {
        Some(t) => {
            let trimmed = trim::trimmed(t.as_str());
            if trimmed.as_str().is_empty() {
                return text::copy(WAITING_PAGE);
            }
            let x = text::chars_of(trimmed.as_str());
            let mut data = String::new();
            let mut i: usize = 0;
            assert(x@.take(0) =~= seq![]);
            assert(data@ =~= encoded(x@.take(0)));
            while i < x.len()
                invariant
                    i <= x@.len(),
                    data@ == encoded(x@.take(i as int)),
                decreases x@.len() - i,
            {
                assert(x@.take(i + 1).drop_last() == x@.take(i as int));
                assert(x@.take(i + 1).last() == x@[i as int]);
                push_encoded(&mut data, x[i]);
                i += 1;
            }
            assert(x@.take(i as int) == x@);
            let mut r = text::copy(QR_PAGE_HEAD);
            r.append("https://api.qrserver.com/v1/create-qr-code/?size=400x400&format=png&data=");
            r.append(data.as_str());
            r.append(QR_PAGE_TAIL);
            r
        },
        None => text::copy(WAITING_PAGE),
    }
}

} // verus!
