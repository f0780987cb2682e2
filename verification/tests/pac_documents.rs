use bypaxdpi::pac::{
    html_escape, make_pac_body, make_pac_direct_body, make_pac_url, make_setup_html,
    PAC_DIRECT_BODY, SETUP_HTML_HEAD, SETUP_HTML_TAIL,
};
use bypaxdpi::text::decimal_string;

#[test]
fn direct_body_sends_everything_direct() {
    let body = make_pac_direct_body();
    assert_eq!(body, "function FindProxyForURL(url, host) {\n    return \"DIRECT\";\n}\n");
    assert_eq!(body, PAC_DIRECT_BODY);
}

#[test]
fn proxy_body_names_the_proxy_then_direct() {
    let body = make_pac_body("192.168.1.20", 8080);
    assert!(body.starts_with("function FindProxyForURL(url, host) {\n"));
    assert!(body.ends_with("    return \"PROXY 192.168.1.20:8080; DIRECT\";\n}\n"));
    assert!(body.contains("isInNet(resolved, \"192.168.0.0\", \"255.255.0.0\")"));
    assert!(body.contains("isInNet(resolved, \"10.0.0.0\", \"255.0.0.0\")"));
    assert!(body.contains("isInNet(resolved, \"172.16.0.0\", \"255.240.0.0\")"));
    assert!(body.contains("isInNet(resolved, \"127.0.0.0\", \"255.0.0.0\")"));
    assert!(body.contains("shExpMatch(host, \"*.local\"))"));
    assert!(body.contains("    } catch(e) {}\n"));
    assert!(!body.contains("{{"));
}

#[test]
fn proxy_body_with_port_zero_and_max() {
    assert!(make_pac_body("10.0.0.1", 0).contains("PROXY 10.0.0.1:0; DIRECT"));
    assert!(make_pac_body("10.0.0.1", 65535).contains("PROXY 10.0.0.1:65535; DIRECT"));
}

#[test]
fn pac_url_format() {
    assert_eq!(make_pac_url("192.168.1.20", 8787), "http://192.168.1.20:8787/proxy.pac");
    assert_eq!(make_pac_url("127.0.0.1", 0), "http://127.0.0.1:0/proxy.pac");
}

#[test]
fn decimal_rendering() {
    assert_eq!(decimal_string(0), "0");
    assert_eq!(decimal_string(7), "7");
    assert_eq!(decimal_string(10), "10");
    assert_eq!(decimal_string(8887), "8887");
    assert_eq!(decimal_string(u64::MAX), "18446744073709551615");
}

#[test]
fn html_escape_replaces_markup() {
    assert_eq!(html_escape("a&b<c>d\"e'f"), "a&amp;b&lt;c&gt;d&quot;e'f");
    assert_eq!(html_escape("&amp;"), "&amp;amp;");
    assert_eq!(html_escape(""), "");
    assert_eq!(html_escape("http://192.168.1.5:8787/proxy.pac"), "http://192.168.1.5:8787/proxy.pac");
    assert_eq!(html_escape("ğüş<ı>"), "ğüş&lt;ı&gt;");
}

#[test]
fn html_escape_matches_chained_replace() {
    let samples = ["\"><script>alert(1)</script>", "&&<<>>\"\"", "plain text", "x&lt;y"];
    for s in samples {
        let chained = s
            .replace('&', "&amp;")
            .replace('<', "&lt;")
            .replace('>', "&gt;")
            .replace('"', "&quot;");
        assert_eq!(html_escape(s), chained);
        let escaped = html_escape(s);
        assert!(!escaped.contains('<') && !escaped.contains('>') && !escaped.contains('"'));
    }
}

#[test]
fn setup_page_shows_escaped_address() {
    let page = make_setup_html("http://10.0.0.2:8787/proxy.pac?a=1&b=\"2\"");
    assert!(page.starts_with("<!DOCTYPE html>\n<html lang=\"tr\">"));
    assert!(page.contains(
        "value=\"http://10.0.0.2:8787/proxy.pac?a=1&amp;b=&quot;2&quot;\" readonly"
    ));
    assert!(page.ends_with("</script>\n</body>\n</html>"));
    assert!(page.contains(":root {\n    --bg-color: #09090b;"));
    assert!(page.contains("BypaxDPI'a Bağlan"));
    assert!(!page.contains("{{"));
    assert_eq!(
        page.len(),
        SETUP_HTML_HEAD.len() + SETUP_HTML_TAIL.len()
            + "http://10.0.0.2:8787/proxy.pac?a=1&amp;b=&quot;2&quot;".len()
    );
}

#[test]
fn unescape_restores_text() {
    for s in ["a&b<c>d\"e", "&amp;&lt;", "&quot;\"", "plain", "", "ğ<ü>&"] {
        let back = html_escape(s)
            .replace("&quot;", "\"")
            .replace("&gt;", ">")
            .replace("&lt;", "<")
            .replace("&amp;", "&");
        assert_eq!(back, s);
    }
}
