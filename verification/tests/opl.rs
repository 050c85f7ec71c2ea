use osmio::opl::{
    decode_members, decode_string, decode_tags, decode_way_nodes, encode_members, encode_string,
    encode_tags, encode_way_nodes, split, split_key_value, split_once, DecodeStringError,
};

#[test]
fn decode_string1() {
    assert_eq!(decode_string("hello").unwrap_or("".to_string()), "hello");
    assert_eq!(decode_string("hello%20%world").unwrap_or("".to_string()), "hello world");
}

#[test]
fn encode_string1() {
    assert_eq!(encode_string("hello"), "hello");
    assert_eq!(encode_string("hello world"), "hello%20%world");
}

#[test]
fn encode_string_escapes_the_five_separators() {
    assert_eq!(encode_string(" "), "%20%");
    assert_eq!(encode_string("\n"), "%A%");
    assert_eq!(encode_string(","), "%2C%");
    assert_eq!(encode_string("="), "%3D%");
    assert_eq!(encode_string("@"), "%40%");
    assert_eq!(encode_string("a=b,c@d e\n"), "a%3D%b%2C%c%40%d%20%e%A%");
    assert_eq!(encode_string(""), "");
    assert_eq!(encode_string("\u{3c4}12"), "\u{3c4}12");
}

#[test]
fn decode_string_reads_hexadecimal_code_points() {
    assert_eq!(decode_string("%3c4%12"), Ok("\u{3c4}12".to_string()));
    assert_eq!(decode_string("a%3D%b%2C%c"), Ok("a=b,c".to_string()));
    assert_eq!(decode_string("%A%"), Ok("\n".to_string()));
    assert_eq!(decode_string(""), Ok("".to_string()));
}

#[test]
fn decode_string_rejects_what_is_no_character() {
    assert_eq!(decode_string("%zz%"), Err(DecodeStringError));
    assert_eq!(decode_string("%%"), Err(DecodeStringError));
    assert_eq!(decode_string("%D800%"), Err(DecodeStringError));
    assert_eq!(decode_string("%110000%"), Err(DecodeStringError));
    assert_eq!(decode_string("%100000000%"), Err(DecodeStringError));
}

#[test]
fn decode_string_leaves_out_an_open_escape() {
    assert_eq!(decode_string("abc%20"), Ok("abc".to_string()));
    assert_eq!(decode_string("abc%"), Ok("abc".to_string()));
}

#[test]
fn encode_then_decode_gives_the_text_back() {
    for text in ["hello world", "a=b,c@d e\n", "", "plain"] {
        assert_eq!(decode_string(&encode_string(text)), Ok(text.to_string()));
    }
}

#[test]
fn texts_are_split_at_separators() {
    assert_eq!(split("a,b,c", ','), vec!["a", "b", "c"]);
    assert_eq!(split("", ','), vec![""]);
    assert_eq!(split(",", ','), vec!["", ""]);
    assert_eq!(split("a,,b,", ','), vec!["a", "", "b", ""]);
    assert_eq!(split("no separator", ','), vec!["no separator"]);
    assert_eq!(split_once("k=v=w", '='), Some(("k", "v=w")));
    assert_eq!(split_once("=v", '='), Some(("", "v")));
    assert_eq!(split_once("k=", '='), Some(("k", "")));
    assert_eq!(split_once("kv", '='), None);
    assert_eq!(split_once("\u{3c4}=\u{3c4}", '='), Some(("\u{3c4}", "\u{3c4}")));
}

#[test]
fn items_are_split_into_letter_and_rest() {
    assert_eq!(split_key_value("n197801"), Ok(("n", "197801")));
    assert_eq!(split_key_value("T"), Ok(("T", "")));
    assert_eq!(split_key_value("u\u{3c4}12"), Ok(("u", "\u{3c4}12")));
    assert_eq!(split_key_value(""), Err(DecodeStringError));
    assert_eq!(split_key_value("\u{20ac}"), Err(DecodeStringError));
    assert_eq!(split_key_value("\u{20ac}1"), Err(DecodeStringError));
}

#[test]
fn way_nodes_are_read_and_written() {
    assert_eq!(decode_way_nodes("n1,n2,n3"), Ok(vec![1, 2, 3]));
    assert_eq!(decode_way_nodes("n-5"), Ok(vec![-5]));
    assert_eq!(decode_way_nodes("x7"), Ok(vec![7]));
    assert_eq!(decode_way_nodes(""), Err(DecodeStringError));
    assert_eq!(decode_way_nodes("n1,"), Err(DecodeStringError));
    assert_eq!(decode_way_nodes("n1,nx"), Err(DecodeStringError));
    assert_eq!(decode_way_nodes("n99999999999999999999"), Err(DecodeStringError));
    assert_eq!(encode_way_nodes(&vec![1, 2, 3]), "n1,n2,n3");
    assert_eq!(encode_way_nodes(&vec![-7]), "n-7");
    assert_eq!(encode_way_nodes(&vec![]), "");
    let nodes = vec![i64::MIN, 0, i64::MAX];
    assert_eq!(decode_way_nodes(&encode_way_nodes(&nodes)), Ok(nodes));
}

#[test]
fn tags_are_read_and_written() {
    assert_eq!(
        decode_tags("created_by=JOSM"),
        Ok(vec![("created_by".to_string(), "JOSM".to_string())])
    );
    assert_eq!(decode_tags(""), Ok(vec![]));
    assert_eq!(
        decode_tags("a%20%b=c%3D%d,e=,=f"),
        Ok(vec![
            ("a b".to_string(), "c=d".to_string()),
            ("e".to_string(), "".to_string()),
            ("".to_string(), "f".to_string()),
        ])
    );
    // of two items with one key the second counts
    assert_eq!(
        decode_tags("k=1,j=2,k=3"),
        Ok(vec![("k".to_string(), "3".to_string()), ("j".to_string(), "2".to_string())])
    );
    assert_eq!(decode_tags("novalue"), Err(DecodeStringError));
    assert_eq!(decode_tags("k=v,"), Err(DecodeStringError));
    assert_eq!(decode_tags("k=%zz%"), Err(DecodeStringError));
    let tags = vec![
        ("name".to_string(), "Main Street, north".to_string()),
        ("a=b".to_string(), "c@d".to_string()),
    ];
    assert_eq!(encode_tags(&tags), "name=Main%20%Street%2C%%20%north,a%3D%b=c%40%d");
    assert_eq!(decode_tags(&encode_tags(&tags)), Ok(tags));
    assert_eq!(encode_tags(&vec![]), "");
}

#[test]
fn members_are_read_and_written() {
    assert_eq!(
        decode_members("n1@inner,w2@outer"),
        Ok(vec![('n', 1, "inner".to_string()), ('w', 2, "outer".to_string())])
    );
    assert_eq!(decode_members("r-3@"), Ok(vec![('r', -3, "".to_string())]));
    assert_eq!(decode_members("n1@a@b"), Ok(vec![('n', 1, "a@b".to_string())]));
    assert_eq!(decode_members(""), Err(DecodeStringError));
    assert_eq!(decode_members("n1"), Err(DecodeStringError));
    assert_eq!(decode_members("n@role"), Err(DecodeStringError));
    assert_eq!(decode_members("\u{20ac}1@role"), Err(DecodeStringError));
    let members = vec![('n', 1, "inner".to_string()), ('w', -2, "".to_string())];
    assert_eq!(encode_members(&members), "n1@inner,w-2@");
    assert_eq!(decode_members(&encode_members(&members)), Ok(members));
    assert_eq!(encode_members(&vec![]), "");
}
