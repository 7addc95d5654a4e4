use http_wire::grammar::{
    has_method_name_str, has_token_str, is_host_str, is_media_type_str, split_header_line_str,
};
use regex::Regex;

const RE_TOKEN_PATTERN: &str = r"[a-zA-Z0-9!#$%&'*+\-.^_`|~]+";

const SAMPLES: [&str; 28] = [
    "",
    " ",
    "token",
    "@@@",
    "@a@",
    "text/html",
    "text/",
    "/html",
    "text/html/x",
    "te xt/html",
    "*/*",
    "GET",
    "xPOSTy",
    "UPDATE",
    "PU T",
    "get",
    "curl/8.0 extra",
    "example.com",
    "example.com:8080",
    "127.0.0.1",
    "9abc!",
    "!!",
    "host!",
    "[::1]",
    "a\nb",
    "ünï",
    "~",
    "(",
];

#[test]
fn token_rule_matches_the_token_regex() {
    let re = Regex::new(RE_TOKEN_PATTERN).unwrap();
    for s in SAMPLES {
        assert_eq!(has_token_str(s), re.is_match(s), "{:?}", s);
    }
}

#[test]
fn media_type_rule_matches_its_regex() {
    let re = Regex::new(&format!(r"^{RE_TOKEN_PATTERN}/{RE_TOKEN_PATTERN}$")).unwrap();
    for s in SAMPLES {
        assert_eq!(is_media_type_str(s), re.is_match(s), "{:?}", s);
    }
}

#[test]
fn method_rule_matches_its_regex() {
    let re = Regex::new(r"(PUT)|(POST)|(GET)|(UPDATE)").unwrap();
    for s in SAMPLES {
        assert_eq!(has_method_name_str(s), re.is_match(s), "{:?}", s);
    }
}

#[test]
fn product_rule_matches_the_user_agent_regex() {
    let product = format!(r"{RE_TOKEN_PATTERN}(/{RE_TOKEN_PATTERN})?");
    let re = Regex::new(&format!(r"{product}( {product})*")).unwrap();
    for s in SAMPLES {
        assert_eq!(has_token_str(s), re.is_match(s), "{:?}", s);
    }
}

#[test]
fn host_rule_matches_the_host_regex() {
    let re_255 = r"(2[0-5][0-5])|(1?[0-9]{1,2})";
    let re_ip = format!(r"{re_255}.{re_255}.{re_255}.{re_255}");
    let re_regname = r"[a-zA-Z0-9\.-_~]+";
    let re_port = r"([1-5]?[0-9]{1,4})|(6[0-5][0-5][0-3][0-5])";
    let re = Regex::new(&format!(r"^({re_ip})|({re_regname})(:{re_port})?$")).unwrap();
    for s in SAMPLES {
        assert_eq!(is_host_str(s), re.is_match(s), "{:?}", s);
    }
}

#[test]
fn header_line_split_matches_the_header_regex() {
    let re = Regex::new(r"^([a-zA-Z\-]+): +(.*)$").unwrap();
    let lines = [
        "Host: example.com",
        "Host:example.com",
        "Host:    spaced",
        "Host: ",
        "Host:  ",
        ": value",
        "X-Y: a: b",
        "Bad Name: v",
        "Host: a\nb",
        "Host: trailing\r",
        "Hôst: x",
        "Content-Length: 42",
        "",
    ];
    for line in lines {
        let expected = re.captures(line).map(|c| {
            let (_, [f, v]) = c.extract();
            (f, v)
        });
        assert_eq!(split_header_line_str(line), expected, "{:?}", line);
    }
}
