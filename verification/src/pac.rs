//! The documents that the PAC server hands out: the proxy auto-config
//! script (the routing one while a proxy runs, the all-direct one after it
//! stops), the address of that script, and the setup page that shows it.

use vstd::prelude::*;
use vstd::string::StringExecFns;
use crate::text::{decimal, decimal_reads_back, digits_value, is_digit, push_decimal};

verus! {

/// The fallback PAC script: every request goes out directly, so devices keep
/// their connection while no proxy runs.
pub const PAC_DIRECT_BODY: &'static str = "function FindProxyForURL(url, host) {\n    return \"DIRECT\";\n}\n";

/// The PAC script that routes through the proxy, up to the proxy address.
pub const PAC_PROXY_HEAD: &'static str = r##"function FindProxyForURL(url, host) {
    if (isPlainHostName(host) || host === "localhost" || host.indexOf("127.") === 0 ||
        shExpMatch(host, "*.local"))
        return "DIRECT";
    try {
        var resolved = dnsResolve(host);
        if (resolved &&
            (isInNet(resolved, "192.168.0.0", "255.255.0.0") ||
             isInNet(resolved, "10.0.0.0", "255.0.0.0") ||
             isInNet(resolved, "172.16.0.0", "255.240.0.0") ||
             isInNet(resolved, "127.0.0.0", "255.0.0.0")))
            return "DIRECT";
    } catch(e) {}
    return "PROXY "##;

/// The PAC script that routes through the proxy, after the proxy address.
pub const PAC_PROXY_TAIL: &'static str = r##"; DIRECT";
}
"##;

/// The setup page, up to the escaped PAC address.
pub const SETUP_HTML_HEAD: &'static str = r##"<!DOCTYPE html>
<html lang="tr">
<head>
<meta charset="UTF-8">
<meta name="viewport" content="width=device-width, initial-scale=1, maximum-scale=1, user-scalable=0">
<title>BypaxDPI – Kurulum</title>
<style>
:root {
    --bg-color: #09090b;
    --card-bg: #18181b;
    --primary: #3b82f6;
    --primary-hover: #2563eb;
    --success: #22c55e;
    --text-main: #f8fafc;
    --text-muted: #94a3b8;
    --border: rgba(255,255,255,0.08);
}
* { box-sizing: border-box; margin: 0; padding: 0; font-family: -apple-system, BlinkMacSystemFont, 'Segoe UI', Roboto, Helvetica, Arial, sans-serif; -webkit-tap-highlight-color: transparent; }
body { background-color: var(--bg-color); color: var(--text-main); line-height: 1.5; padding: 20px 16px; display: flex; flex-direction: column; align-items: center; min-height: 100vh; }
.container { width: 100%; max-width: 440px; display: flex; flex-direction: column; gap: 20px; }

/* Header */
.header { text-align: center; margin-bottom: 10px; animation: fadeDown 0.6s ease; }
.title { font-size: 1.5rem; font-weight: 700; letter-spacing: -0.02em; margin-bottom: 4px; }
.subtitle { font-size: 0.9rem; color: var(--text-muted); }

/* Card */
.card { background: var(--card-bg); border: 1px solid var(--border); border-radius: 20px; padding: 20px; box-shadow: 0 10px 40px rgba(0,0,0,0.5); animation: fadeUp 0.6s ease; }
.card-title { font-size: 1.05rem; font-weight: 600; margin-bottom: 16px; display: flex; align-items: center; gap: 8px; }

/* Input Group */
.input-group { position: relative; margin-bottom: 16px; }
.url-input { width: 100%; background: #27272a; border: 1px solid #3f3f46; color: var(--text-main); font-size: 0.9rem; padding: 14px 16px; border-radius: 12px; outline: none; transition: border-color 0.2s; -webkit-user-select: all; user-select: all; }
.url-input:focus { border-color: var(--primary); }

/* Copy Button */
.btn-copy { width: 100%; height: 50px; background: var(--primary); color: #fff; font-size: 1.05rem; font-weight: 600; padding: 0 20px; border: none; border-radius: 12px; cursor: pointer; display: flex; align-items: center; justify-content: center; gap: 8px; transition: all 0.2s; box-shadow: 0 4px 12px rgba(59,130,246,0.3); }
.btn-copy:active { transform: scale(0.98); }
.btn-copy.success { background: var(--success); box-shadow: 0 4px 12px rgba(34,197,94,0.3); }

/* Guide Button */
.btn-guide { display: inline-flex; align-items: center; justify-content: center; background: var(--success); color: #fff; text-decoration: none; padding: 12px 16px; border-radius: 12px; font-size: 0.9rem; font-weight: 600; border: none; width: 100%; margin-top: 12px; transition: all 0.2s; box-shadow: 0 4px 12px rgba(34,197,94,0.3); }
.btn-guide:active { transform: scale(0.98); opacity: 0.9; }

/* Steps */
.step-list { list-style: none; counter-reset: custom-counter; margin-top: 10px; display: flex; flex-direction: column; gap: 12px; }
.step-item { position: relative; padding-left: 36px; font-size: 0.9rem; color: #a1a1aa; }
.step-item::before { content: counter(custom-counter); counter-increment: custom-counter; position: absolute; left: 0; top: -1px; width: 24px; height: 24px; background: rgba(255,255,255,0.1); color: #fff; font-size: 0.75rem; font-weight: 600; display: flex; align-items: center; justify-content: center; border-radius: 50%; }
.step-item strong { color: #e2e8f0; font-weight: 600; display: block; margin-bottom: 2px; }

/* Language Switcher */
.lang-switcher { display: flex; justify-content: center; gap: 12px; margin-bottom: 8px; animation: fadeDown 0.6s ease; }
.lang-btn { background: rgba(255,255,255,0.05); border: 1px solid var(--border); color: #fff; padding: 6px 16px; border-radius: 10px; font-size: 0.85rem; cursor: pointer; transition: all 0.2s; font-weight: 500; }
.lang-btn.active { background: var(--primary); border-color: var(--primary); font-weight: 700; box-shadow: 0 0 15px rgba(59,130,246,0.3); }

/* Divider */
.divider { height: 1px; background: var(--border); margin: 24px 0; }

/* Animations */
@keyframes fadeUp { from { opacity: 0; transform: translateY(15px); } to { opacity: 1; transform: translateY(0); } }
@keyframes fadeDown { from { opacity: 0; transform: translateY(-15px); } to { opacity: 1; transform: translateY(0); } }

/* Notice */
.notice { background: rgba(239, 68, 68, 0.1); border: 1px solid rgba(239, 68, 68, 0.2); padding: 12px; border-radius: 12px; margin-top: 20px; font-size: 0.85rem; color: #fca5a5; display: flex; align-items: flex-start; gap: 10px; }
.notice-icon { font-size: 1.2rem; }
</style>
</head>
<body>
<div class="container">
    <div class="lang-switcher">
        <button class="lang-btn active" id="btn-tr">TÜRKÇE</button>
        <button class="lang-btn" id="btn-en">ENGLISH</button>
    </div>

    <header class="header">
        <h1 class="title" data-tr="BypaxDPI'a Bağlan" data-en="Connect to BypaxDPI">BypaxDPI'a Bağlan</h1>
        <p class="subtitle" data-tr="İnternet trafiğinizi şifreleyin ve engelleri aşın" data-en="Encrypt your traffic and bypass restrictions">İnternet trafiğinizi şifreleyin ve engelleri aşın</p>
    </header>

    <div class="card">
        <div class="card-title">
            <span>📱</span> <span data-tr="Android & iPhone Kurulumu" data-en="Android & iPhone Setup">Android & iPhone Kurulumu</span>
        </div>

        <div class="input-group">
            <input type="text" class="url-input" id="pacurl" value=""##;

/// The setup page, after the escaped PAC address.
pub const SETUP_HTML_TAIL: &'static str = r##"" readonly onclick="this.select();">
        </div>

        <button class="btn-copy" id="copybtn" data-tr="Adresi Kopyala" data-en="Copy Address">
            Adresi Kopyala
        </button>

        <a href="https://bypaxdpi.vercel.app/proxy" target="_blank" class="btn-guide" data-tr="❓ Görsel Kurulum Rehberi" data-en="❓ Visual Setup Guide">
            ❓ Görsel Kurulum Rehberi
        </a>

        <div class="divider"></div>

        <div class="card-title" style="font-size:0.95rem; margin-bottom:12px;" data-tr="Nasıl yapılır kısaca?" data-en="Quick Guide">Nasıl yapılır kısaca?</div>
        <ul class="step-list">
            <li class="step-item">
                <strong data-tr="Yeşil butona basarak adresi kopyalayın." data-en="Copy the address using the green button.">Yeşil butona basarak adresi kopyalayın.</strong>
                <span data-tr="Kopyalanmazsa kutuya uzun basıp elle kopyalayın." data-en="If copy fails, long press the box to copy manually.">Kopyalanmazsa kutuya uzun basıp elle kopyalayın.</span>
            </li>
            <li class="step-item">
                <strong data-tr="Wi-Fi ayarlarınıza gidin." data-en="Go to Wi-Fi settings.">Wi-Fi ayarlarınıza gidin.</strong>
                <span data-tr="Bağlı olduğunuz ağın yanındaki (Ayarlar ⚙️ / i) ikonuna dokunun." data-en="Tap the (Settings ⚙️ / i) icon next to your network.">Bağlı olduğunuz ağın yanındaki (Ayarlar ⚙️ / i) ikonuna dokunun.</span>
            </li>
            <li class="step-item">
                <strong data-tr="Proxy ayarını 'Otomatik / PAC' olarak değiştirin." data-en="Change Proxy to 'Automatic / PAC'.">Proxy ayarını "Otomatik / PAC" olarak değiştirin.</strong>
                <span data-tr="Gelişmiş ayarlar menüsünün altında bulunabilir." data-en="Can be found under advanced settings.">Gelişmiş ayarlar menüsünün altında bulunabilir.</span>
            </li>
            <li class="step-item">
                <strong data-tr="Kopyaladığınız adresi yapıştırın ve kaydedin." data-en="Paste the copied address and save.">Kopyaladığınız adresi yapıştırın ve kaydedin.</strong>
                <span data-tr="Artık bağlantınız güvende!" data-en="Your connection is now secure!">Artık bağlantınız güvende!</span>
            </li>
        </ul>
    </div>

    <div class="notice">
        <span class="notice-icon">⚠</span>
        <div>
            <strong data-tr="ÖNEMLİ:" data-en="IMPORTANT:">ÖNEMLİ:</strong>
            <span data-tr="Uygulamayı kapattıktan sonra telefonunuzda (örn: WhatsApp) internet sorunu yaşarsanız, telefonunuzun Wi-Fi bağlantısını bir kereliğine kapatıp açmanız yeterlidir. (Cache temizlenir)." data-en="If you experience network issues (e.g., WhatsApp) after closing the app, simply toggle your Wi-Fi off and on once. (Clears cache).">Uygulamayı kapattıktan sonra telefonunuzda (örn: WhatsApp) internet sorunu yaşarsanız, telefonunuzun Wi-Fi bağlantısını bir kereliğine kapatıp açmanız yeterlidir. (Cache temizlenir).</span>
        </div>
    </div>
</div>

<script>
(function() {
    var url = document.getElementById('pacurl').value;
    var btn = document.getElementById('copybtn');
    var currentLang = 'tr';

    function setLanguage(lang) {
        currentLang = lang;
        document.querySelectorAll('[data-tr]').forEach(function(el) {
            el.innerHTML = el.getAttribute('data-' + lang);
        });
        document.getElementById('btn-tr').classList.toggle('active', lang === 'tr');
        document.getElementById('btn-en').classList.toggle('active', lang === 'en');
        
        // Kopyalanmış buton metnini koruyalım eğer o andaysa
        if (btn.classList.contains('success')) {
             btn.innerHTML = (lang === 'tr' ? '✓ Kopyalandı!' : '✓ Copied!');
        }
    }

    document.getElementById('btn-tr').onclick = function() { setLanguage('tr'); };
    document.getElementById('btn-en').onclick = function() { setLanguage('en'); };

    function tryCopy() {
        if (navigator.clipboard && navigator.clipboard.writeText) {
            navigator.clipboard.writeText(url).then(function() {
                showSuccess();
            }).catch(fallbackCopyTextToClipboard);
        } else {
            fallbackCopyTextToClipboard();
        }
    }

    function showSuccess() {
        var originalText = btn.getAttribute('data-' + currentLang);
        btn.innerHTML = (currentLang === 'tr' ? '✓ Kopyalandı!' : '✓ Copied!');
        btn.classList.add('success');
        setTimeout(function() {
            btn.innerHTML = originalText;
            btn.classList.remove('success');
        }, 2500);
    }

    function fallbackCopyTextToClipboard() {
        var textArea = document.createElement("textarea");
        textArea.value = url;
        textArea.style.top = "0";
        textArea.style.left = "0";
        textArea.style.position = "fixed";
        document.body.appendChild(textArea);
        textArea.focus();
        textArea.select();
        try {
            var successful = document.execCommand('copy');
            if (successful) showSuccess();
        } catch (err) { }
        document.body.removeChild(textArea);
    }

    btn.onclick = tryCopy;
})();
</script>
</body>
</html>"##;

/// `host:port` of the proxy as the PAC script names it.
pub open spec fn proxy_address(lan_ip: Seq<char>, port: u16) -> Seq<char> {
    lan_ip + seq![':'] + decimal(port as nat)
}

/// The routing PAC script for a proxy at `lan_ip:port`: local names and
/// private networks go direct, everything else through the proxy and, if
/// that fails, direct.
pub open spec fn pac_body_text(lan_ip: Seq<char>, port: u16) -> Seq<char> {
    PAC_PROXY_HEAD@ + proxy_address(lan_ip, port) + PAC_PROXY_TAIL@
}

/// The address under which the PAC server publishes the script.
pub open spec fn pac_url_text(lan_ip: Seq<char>, port: u16) -> Seq<char> {
    seq!['h', 't', 't', 'p', ':', '/', '/'] + lan_ip + seq![':'] + decimal(port as nat) + seq![
        '/',
        'p',
        'r',
        'o',
        'x',
        'y',
        '.',
        'p',
        'a',
        'c',
    ]
}

/// The HTML escape of one character: `&`, `<`, `>` and `"` become entities.
pub open spec fn escape_html_char(c: char) -> Seq<char> {
    if c == '&' {
        seq!['&', 'a', 'm', 'p', ';']
    } else if c == '<' {
        seq!['&', 'l', 't', ';']
    } else if c == '>' {
        seq!['&', 'g', 't', ';']
    } else if c == '"' {
        seq!['&', 'q', 'u', 'o', 't', ';']
    } else {
        seq![c]
    }
}

/// The HTML escape of a text, character by character.
pub open spec fn html_escaped(s: Seq<char>) -> Seq<char>
    decreases s.len(),
{
    if s.len() == 0 {
        seq![]
    } else {
        html_escaped(s.drop_last()) + escape_html_char(s.last())
    }
}

/// The setup page that shows `pac_url` (escaped) for copying.
pub open spec fn setup_html_text(pac_url: Seq<char>) -> Seq<char> {
    SETUP_HTML_HEAD@ + html_escaped(pac_url) + SETUP_HTML_TAIL@
}

/// The routing script with `digits` in the place of the proxy's port.
pub open spec fn pac_body_with_port_digits(lan_ip: Seq<char>, digits: Seq<char>) -> Seq<char> {
    PAC_PROXY_HEAD@ + lan_ip + seq![':'] + digits + PAC_PROXY_TAIL@
}

/// The script address with `digits` in the place of the server's port.
pub open spec fn pac_url_with_port_digits(lan_ip: Seq<char>, digits: Seq<char>) -> Seq<char> {
    seq!['h', 't', 't', 'p', ':', '/', '/'] + lan_ip + seq![':'] + digits + seq![
        '/',
        'p',
        'r',
        'o',
        'x',
        'y',
        '.',
        'p',
        'a',
        'c',
    ]
}

/// The routing script names the proxy as the LAN address, a colon, and
/// decimal digits that read back as the proxy's port.
pub proof fn pac_body_names_proxy_port(lan_ip: Seq<char>, port: u16)
    ensures
        exists|digits: Seq<char>|
            #[trigger] pac_body_with_port_digits(lan_ip, digits) == pac_body_text(lan_ip, port) && digits.len() > 0 && (forall|i: int|
                0 <= i < digits.len() ==> is_digit(#[trigger] digits[i])) && digits_value(digits)
                == port as nat,
{
    decimal_reads_back(port as nat);
    let d = decimal(port as nat);
    assert(pac_body_with_port_digits(lan_ip, d) == pac_body_text(lan_ip, port));
}

/// The address of the script is `http://`, the LAN address, a colon,
/// decimal digits that read back as the server's port, and `/proxy.pac`.
pub proof fn pac_url_names_server_port(lan_ip: Seq<char>, port: u16)
    ensures
        exists|digits: Seq<char>|
            #[trigger] pac_url_with_port_digits(lan_ip, digits) == pac_url_text(lan_ip, port) && digits.len() > 0 && (forall|i: int|
                0 <= i < digits.len() ==> is_digit(#[trigger] digits[i])) && digits_value(digits)
                == port as nat,
{
    decimal_reads_back(port as nat);
    let d = decimal(port as nat);
    assert(pac_url_with_port_digits(lan_ip, d) == pac_url_text(lan_ip, port));
}

/// The all-direct PAC script.
pub fn make_pac_direct_body() -> (body: String)
    ensures
        body@ == PAC_DIRECT_BODY@,
{
    String::from_str(PAC_DIRECT_BODY)
}

/// The PAC script that sends traffic through the proxy at
/// `lan_ip:proxy_port`.
pub fn make_pac_body(lan_ip: &str, proxy_port: u16) -> (body: String)
    ensures
        body@ == pac_body_text(lan_ip@, proxy_port),
{
    let mut body = String::from_str(PAC_PROXY_HEAD);
    body.append(lan_ip);
    body.push(':');
    push_decimal(&mut body, proxy_port as u64);
    body.append(PAC_PROXY_TAIL);
    body
}

/// The address of the PAC script served on `lan_ip:port`.
pub fn make_pac_url(lan_ip: &str, port: u16) -> (url: String)
    ensures
        url@ == pac_url_text(lan_ip@, port),
{
    let mut url = String::new();
    url.push('h');
    url.push('t');
    url.push('t');
    url.push('p');
    url.push(':');
    url.push('/');
    url.push('/');
    url.append(lan_ip);
    url.push(':');
    push_decimal(&mut url, port as u64);
    url.push('/');
    url.push('p');
    url.push('r');
    url.push('o');
    url.push('x');
    url.push('y');
    url.push('.');
    url.push('p');
    url.push('a');
    url.push('c');
    assert(url@ =~= pac_url_text(lan_ip@, port));
    url
}

fn push_escaped(out: &mut String, c: char)
    ensures
        final(out)@ == old(out)@ + escape_html_char(c),
{
    if c == '&' {
        out.push('&');
        out.push('a');
        out.push('m');
        out.push('p');
        out.push(';');
    } else if c == '<' {
        out.push('&');
        out.push('l');
        out.push('t');
        out.push(';');
    } else if c == '>' {
        out.push('&');
        out.push('g');
        out.push('t');
        out.push(';');
    } else if c == '"' {
        out.push('&');
        out.push('q');
        out.push('u');
        out.push('o');
        out.push('t');
        out.push(';');
    } else {
        out.push(c);
    }
    assert(final(out)@ =~= old(out)@ + escape_html_char(c));
}

/// `s` with `&`, `<`, `>` and `"` replaced by their HTML entities.
pub fn html_escape(s: &str) -> (escaped: String)
    ensures
        escaped@ == html_escaped(s@),
{
    let mut escaped = String::new();
    for c in it: s.chars()
        invariant
            it.seq() == s@,
            escaped@ == html_escaped(it.seq().take(it.index() as int)),
    {
        let ghost done = it.seq().take(it.index() as int);
        push_escaped(&mut escaped, c);
        proof {
            let next = it.seq().take(it.index() + 1);
            assert(next.drop_last() == done);
            assert(next.last() == c);
        }
    }
    assert(s@.take(s@.len() as int) == s@);
    escaped
}

/// `s` with every occurrence of `c` replaced by `r`, as `str::replace`
/// does for a single character.
pub open spec fn replace_char(s: Seq<char>, c: char, r: Seq<char>) -> Seq<char>
    decreases s.len(),
{
    if s.len() == 0 {
        seq![]
    } else {
        replace_char(s.drop_last(), c, r) + (if s.last() == c {
            r
        } else {
            seq![s.last()]
        })
    }
}

proof fn lemma_replace_concat(a: Seq<char>, b: Seq<char>, c: char, r: Seq<char>)
    ensures
        replace_char(a + b, c, r) == replace_char(a, c, r) + replace_char(b, c, r),
    decreases b.len(),
{
    if b.len() == 0 {
        assert(a + b == a);
    } else {
        lemma_replace_concat(a, b.drop_last(), c, r);
        assert((a + b).drop_last() == a + b.drop_last());
        assert((a + b).last() == b.last());
    }
}

proof fn lemma_replace_absent(s: Seq<char>, c: char, r: Seq<char>)
    requires
        forall|k: int| 0 <= k < s.len() ==> s[k] != c,
    ensures
        replace_char(s, c, r) == s,
    decreases s.len(),
{
    if s.len() > 0 {
        lemma_replace_absent(s.drop_last(), c, r);
        assert(s.drop_last().push(s.last()) == s);
    }
}

/// The four replacements that define the escape, in their order: `&` first,
/// so that the entities brought in by the later ones stay intact.
pub open spec fn replace_markup(s: Seq<char>) -> Seq<char> {
    let amp = replace_char(s, '&', seq!['&', 'a', 'm', 'p', ';']);
    let lt = replace_char(amp, '<', seq!['&', 'l', 't', ';']);
    let gt = replace_char(lt, '>', seq!['&', 'g', 't', ';']);
    replace_char(gt, '"', seq!['&', 'q', 'u', 'o', 't', ';'])
}

proof fn lemma_replace_markup_concat(a: Seq<char>, b: Seq<char>)
    ensures
        replace_markup(a + b) == replace_markup(a) + replace_markup(b),
{
    let amp = seq!['&', 'a', 'm', 'p', ';'];
    let lt = seq!['&', 'l', 't', ';'];
    let gt = seq!['&', 'g', 't', ';'];
    let quot = seq!['&', 'q', 'u', 'o', 't', ';'];
    lemma_replace_concat(a, b, '&', amp);
    let a1 = replace_char(a, '&', amp);
    let b1 = replace_char(b, '&', amp);
    lemma_replace_concat(a1, b1, '<', lt);
    let a2 = replace_char(a1, '<', lt);
    let b2 = replace_char(b1, '<', lt);
    lemma_replace_concat(a2, b2, '>', gt);
    let a3 = replace_char(a2, '>', gt);
    let b3 = replace_char(b2, '>', gt);
    lemma_replace_concat(a3, b3, '"', quot);
}

proof fn lemma_replace_single(x: char, c: char, r: Seq<char>)
    ensures
        replace_char(seq![x], c, r) == if x == c {
            r
        } else {
            seq![x]
        },
{
    assert(seq![x].drop_last() == Seq::<char>::empty());
    assert(replace_char(Seq::<char>::empty(), c, r) == Seq::<char>::empty());
}

proof fn lemma_replace_markup_char(x: char)
    ensures
        replace_markup(seq![x]) == escape_html_char(x),
{
    let amp = seq!['&', 'a', 'm', 'p', ';'];
    let lt = seq!['&', 'l', 't', ';'];
    let gt = seq!['&', 'g', 't', ';'];
    let quot = seq!['&', 'q', 'u', 'o', 't', ';'];
    lemma_replace_single(x, '&', amp);
    if x == '&' {
        lemma_replace_absent(amp, '<', lt);
        lemma_replace_absent(amp, '>', gt);
        lemma_replace_absent(amp, '"', quot);
    } else {
        lemma_replace_single(x, '<', lt);
        if x == '<' {
            lemma_replace_absent(lt, '>', gt);
            lemma_replace_absent(lt, '"', quot);
        } else {
            lemma_replace_single(x, '>', gt);
            if x == '>' {
                lemma_replace_absent(gt, '"', quot);
            } else {
                lemma_replace_single(x, '"', quot);
            }
        }
    }
}

/// The escape is the chain of `str::replace` calls that defines it: `&` by `&amp;`, then
/// `<` by `&lt;`, then `>` by `&gt;`, then `"` by `&quot;`.
pub proof fn html_escape_is_chained_replacement(s: Seq<char>)
    ensures
        html_escaped(s) == replace_markup(s),
    decreases s.len(),
{
    if s.len() == 0 {
        assert(replace_markup(s) == Seq::<char>::empty());
    } else {
        html_escape_is_chained_replacement(s.drop_last());
        lemma_replace_markup_concat(s.drop_last(), seq![s.last()]);
        lemma_replace_markup_char(s.last());
        assert(s.drop_last() + seq![s.last()] == s);
    }
}

/// Escaped text holds no `<`, `>` or `"`: it cannot open or close a tag or
/// leave the attribute it is placed in.
pub proof fn html_escape_leaves_no_markup(s: Seq<char>)
    ensures
        forall|k: int|
            0 <= k < html_escaped(s).len() ==> {
                let c = #[trigger] html_escaped(s)[k];
                c != '<' && c != '>' && c != '"'
            },
    decreases s.len(),
{
    if s.len() > 0 {
        html_escape_leaves_no_markup(s.drop_last());
        let e = escape_html_char(s.last());
        assert forall|k: int| 0 <= k < e.len() implies e[k] != '<' && e[k] != '>' && e[k]
            != '"' by {}
        let whole = html_escaped(s);
        let front = html_escaped(s.drop_last());
        assert forall|k: int| 0 <= k < whole.len() implies whole[k] != '<' && whole[k] != '>'
            && whole[k] != '"' by {
            if k < front.len() {
                assert(whole[k] == front[k]);
            } else {
                assert(whole[k] == e[k - front.len()]);
            }
        }
    }
}

/// Text without `&`, `<`, `>` and `"` comes out of the escape unchanged.
pub proof fn html_escape_keeps_plain_text(s: Seq<char>)
    requires
        forall|k: int|
            0 <= k < s.len() ==> {
                let c = #[trigger] s[k];
                c != '&' && c != '<' && c != '>' && c != '"'
            },
    ensures
        html_escaped(s) == s,
    decreases s.len(),
{
    if s.len() > 0 {
        assert(s[s.len() - 1] == s.last());
        html_escape_keeps_plain_text(s.drop_last());
        assert(s.drop_last().push(s.last()) == s);
    }
}

/// Escaping a concatenation escapes each part.
pub proof fn html_escape_distributes(a: Seq<char>, b: Seq<char>)
    ensures
        html_escaped(a + b) == html_escaped(a) + html_escaped(b),
    decreases b.len(),
{
    if b.len() == 0 {
        assert(a + b == a);
    } else {
        html_escape_distributes(a, b.drop_last());
        assert((a + b).drop_last() == a + b.drop_last());
        assert((a + b).last() == b.last());
    }
}

/// `s` with every occurrence of the non-empty `pat` replaced by `rep`,
/// matching from left to right without overlap, as `str::replace` does.
pub open spec fn replace_text(s: Seq<char>, pat: Seq<char>, rep: Seq<char>) -> Seq<char>
    decreases s.len(),
{
    if s.len() == 0 || pat.len() == 0 {
        s
    } else if pat.len() <= s.len() && s.take(pat.len() as int) == pat {
        rep + replace_text(s.skip(pat.len() as int), pat, rep)
    } else {
        seq![s[0]] + replace_text(s.drop_first(), pat, rep)
    }
}

/// Undoes the escape with the reverse chain of `str::replace` calls:
/// `&quot;`, `&gt;`, `&lt;`, and `&amp;` last.
pub open spec fn unescape_markup(t: Seq<char>) -> Seq<char> {
    let quot = replace_text(t, seq!['&', 'q', 'u', 'o', 't', ';'], seq!['"']);
    let gt = replace_text(quot, seq!['&', 'g', 't', ';'], seq!['>']);
    let lt = replace_text(gt, seq!['&', 'l', 't', ';'], seq!['<']);
    replace_text(lt, seq!['&', 'a', 'm', 'p', ';'], seq!['&'])
}

/// The entity undone by the `k`-th replacement of `unescape_markup`.
pub open spec fn unescape_pattern(k: int) -> Seq<char> {
    if k == 0 {
        seq!['&', 'q', 'u', 'o', 't', ';']
    } else if k == 1 {
        seq!['&', 'g', 't', ';']
    } else if k == 2 {
        seq!['&', 'l', 't', ';']
    } else {
        seq!['&', 'a', 'm', 'p', ';']
    }
}

/// The character the `k`-th replacement of `unescape_markup` restores.
pub open spec fn unescape_char(k: int) -> char {
    if k == 0 {
        '"'
    } else if k == 1 {
        '>'
    } else if k == 2 {
        '<'
    } else {
        '&'
    }
}

/// Whether the first `k` replacements have restored `c`.
spec fn restored(c: char, k: int) -> bool {
    exists|j: int| 0 <= j < k && unescape_char(j) == c
}

/// The form of `c` after the first `k` replacements.
spec fn partly_unescaped_char(c: char, k: int) -> Seq<char> {
    if restored(c, k) {
        seq![c]
    } else {
        escape_html_char(c)
    }
}

/// The escaped text after the first `k` replacements.
spec fn partly_unescaped(s: Seq<char>, k: int) -> Seq<char>
    decreases s.len(),
{
    if s.len() == 0 {
        seq![]
    } else {
        partly_unescaped_char(s[0], k) + partly_unescaped(s.drop_first(), k)
    }
}

proof fn lemma_replace_passes_plain(u: Seq<char>, t: Seq<char>, pat: Seq<char>, rep: Seq<char>)
    requires
        pat.len() > 0,
        pat[0] == '&',
        forall|i: int| 0 <= i < u.len() ==> u[i] != '&',
    ensures
        replace_text(u + t, pat, rep) == u + replace_text(t, pat, rep),
    decreases u.len(),
{
    if u.len() > 0 {
        let w = u + t;
        assert(w[0] == u[0]);
        if pat.len() <= w.len() && w.take(pat.len() as int) == pat {
            assert(w.take(pat.len() as int)[0] == pat[0]);
        }
        assert(w.drop_first() == u.drop_first() + t);
        lemma_replace_passes_plain(u.drop_first(), t, pat, rep);
        assert(seq![u[0]] + u.drop_first() == u);
    } else {
        assert(u + t == t);
    }
}

proof fn lemma_replace_chunk(c: char, k: int, t: Seq<char>)
    requires
        0 <= k < 4,
    ensures
        replace_text(partly_unescaped_char(c, k) + t, unescape_pattern(k), seq![unescape_char(k)])
            == partly_unescaped_char(c, k + 1) + replace_text(
            t,
            unescape_pattern(k),
            seq![unescape_char(k)],
        ),
{
    let pat = unescape_pattern(k);
    let rep = seq![unescape_char(k)];
    let chunk = partly_unescaped_char(c, k);
    let w = chunk + t;
    if c == unescape_char(k) && !restored(c, k) {
        assert(restored(c, k + 1));
        assert(chunk == pat);
        assert(w.take(pat.len() as int) == pat);
        assert(w.skip(pat.len() as int) == t);
    } else if chunk.len() == 1 {
        assert(chunk[0] != '&') by {
            if chunk[0] == '&' {
                assert(c == '&');
                assert(!restored(c, k));
            }
        }
        if restored(c, k) {
            let j = choose|j: int| 0 <= j < k && unescape_char(j) == c;
            assert(restored(c, k + 1));
        }
        lemma_replace_passes_plain(chunk, t, pat, rep);
    } else {
        assert(!restored(c, k + 1)) by {
            if restored(c, k + 1) {
                let j = choose|j: int| 0 <= j < k + 1 && unescape_char(j) == c;
                if j < k {
                    assert(restored(c, k));
                }
            }
        }
        assert(chunk == escape_html_char(c));
        assert(w[0] == '&');
        assert(w[1] == chunk[1]);
        assert(chunk[1] != pat[1]);
        if pat.len() <= w.len() && w.take(pat.len() as int) == pat {
            assert(w.take(pat.len() as int)[1] == pat[1]);
        }
        let rest = chunk.drop_first();
        assert(w.drop_first() == rest + t);
        lemma_replace_passes_plain(rest, t, pat, rep);
        assert(seq![chunk[0]] + rest == chunk);
    }
}

proof fn lemma_replace_stage(s: Seq<char>, k: int)
    requires
        0 <= k < 4,
    ensures
        replace_text(partly_unescaped(s, k), unescape_pattern(k), seq![unescape_char(k)])
            == partly_unescaped(s, k + 1),
    decreases s.len(),
{
    if s.len() > 0 {
        lemma_replace_stage(s.drop_first(), k);
        lemma_replace_chunk(s[0], k, partly_unescaped(s.drop_first(), k));
    }
}

proof fn lemma_escaped_is_stage_zero(s: Seq<char>)
    ensures
        html_escaped(s) == partly_unescaped(s, 0),
    decreases s.len(),
{
    if s.len() > 0 {
        lemma_escaped_is_stage_zero(s.drop_first());
        html_escape_distributes(seq![s[0]], s.drop_first());
        assert(seq![s[0]] + s.drop_first() == s);
        assert(seq![s[0]].drop_last() == Seq::<char>::empty());
        assert(html_escaped(Seq::<char>::empty()) == Seq::<char>::empty());
        assert(Seq::<char>::empty() + escape_html_char(s[0]) == escape_html_char(s[0]));
        assert(html_escaped(seq![s[0]]) == escape_html_char(s[0]));
        assert(!restored(s[0], 0));
    }
}

proof fn lemma_stage_four_is_plain(s: Seq<char>)
    ensures
        partly_unescaped(s, 4) == s,
    decreases s.len(),
{
    if s.len() > 0 {
        lemma_stage_four_is_plain(s.drop_first());
        let c = s[0];
        if c == '"' || c == '>' || c == '<' || c == '&' {
            let j = if c == '"' {
                0int
            } else if c == '>' {
                1int
            } else if c == '<' {
                2int
            } else {
                3int
            };
            assert(unescape_char(j) == c);
            assert(restored(c, 4));
        }
        assert(partly_unescaped_char(c, 4) == seq![c]);
        assert(seq![c] + s.drop_first() == s);
    }
}

/// Unescaping the escape gives the text back: replacing `&quot;`, `&gt;`,
/// `&lt;` and then `&amp;` by their characters undoes `html_escape`.
pub proof fn html_escape_round_trip(s: Seq<char>)
    ensures
        unescape_markup(html_escaped(s)) == s,
{
    lemma_escaped_is_stage_zero(s);
    lemma_replace_stage(s, 0);
    lemma_replace_stage(s, 1);
    lemma_replace_stage(s, 2);
    lemma_replace_stage(s, 3);
    lemma_stage_four_is_plain(s);
}

/// The setup page for devices, showing `pac_url` for copying.
pub fn make_setup_html(pac_url: &str) -> (page: String)
    ensures
        page@ == setup_html_text(pac_url@),
{
    let mut page = String::from_str(SETUP_HTML_HEAD);
    let escaped = html_escape(pac_url);
    page.append(escaped.as_str());
    page.append(SETUP_HTML_TAIL);
    page
}

} // verus!
