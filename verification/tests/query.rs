use dcm::query::path_with_query;

fn params(ps: &[(&str, &str)]) -> Option<Vec<(String, String)>> {
    Some(ps.iter().map(|(k, v)| (k.to_string(), v.to_string())).collect())
}

#[test]
fn no_query_leaves_path() {
    assert_eq!(path_with_query("/containers/json", &None), "/containers/json");
    assert_eq!(path_with_query("/containers/json", &params(&[])), "/containers/json");
}

#[test]
fn parameters_are_joined() {
    assert_eq!(
        path_with_query("/containers/x", &params(&[("force", "true"), ("v", "false")])),
        "/containers/x?force=true&v=false"
    );
}

#[test]
fn reserved_characters_are_encoded() {
    assert_eq!(
        path_with_query("/p", &params(&[("a b", "x&y=z?"), ("k", "~-._")])),
        "/p?a%20b=x%26y%3Dz%3F&k=~-._"
    );
}

#[test]
fn multibyte_characters_are_encoded_by_byte() {
    assert_eq!(path_with_query("/p", &params(&[("since", "é")])), "/p?since=%C3%A9");
}
