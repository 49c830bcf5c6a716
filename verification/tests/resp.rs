use tollgate::resp::Res;

#[test]
fn a_record_keeps_what_it_was_made_of() {
    let res: Res<u8> = Res::new(201, "made", 7);
    assert_eq!(201, res.code);
    assert_eq!("made", res.info);
    assert_eq!(7, res.data);
    let res = Res::msg(422, "no");
    assert_eq!(422, res.code);
    assert_eq!("no", res.info);
}

#[test]
fn a_rejection_is_delivered_as_a_json_document() {
    let out = Res::msg(403, "黑名单 ip 禁止访问").into_response();
    assert_eq!(403, out.status);
    assert_eq!(Some("application/json".to_string()), out.content_type);
    assert_eq!(
        Some("{\"code\":403,\"info\":\"黑名单 ip 禁止访问\",\"data\":null}".as_bytes().to_vec()),
        out.body
    );
    assert_eq!(None, out.content_length);
    assert_eq!(None, out.content_disposition);
    assert_eq!(None, out.location);
}

#[test]
fn a_message_is_escaped_in_the_document() {
    let out = Res::msg(400, "a \"b\"\n\\c").into_response();
    assert_eq!(
        Some("{\"code\":400,\"info\":\"a \\\"b\\\"\\n\\\\c\",\"data\":null}".as_bytes().to_vec()),
        out.body
    );
}
