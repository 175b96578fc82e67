use rag::domain::{ExtractRequest, Namespace, Scope, SourceType, TenantId};
use rag::extract::HostPathRemap;

fn request(source_type: SourceType, uri: &str) -> ExtractRequest {
    ExtractRequest {
        scope: Scope { tenant_id: TenantId("t".into()), namespace: Namespace("n".into()) },
        source_type,
        source_uri: Some(uri.into()),
        content: None,
    }
}

#[test]
fn prepends_host_root_to_absolute_path() {
    let s = HostPathRemap::new("/host".to_string());
    let res = s.remap_request(request(SourceType::LocalFile, "/home/user/doc.pdf"));
    assert_eq!(res.source_uri.unwrap(), "/host/home/user/doc.pdf");
}

#[test]
fn leaves_http_uri_unchanged() {
    let s = HostPathRemap::new("/host".to_string());
    let res = s.remap_request(request(SourceType::Website, "https://example.com/page"));
    assert_eq!(res.source_uri.unwrap(), "https://example.com/page");
}

#[test]
fn no_op_when_host_root_empty() {
    let s = HostPathRemap::new(String::new());
    let res = s.remap_request(request(SourceType::LocalFile, "/etc/hostname"));
    assert_eq!(res.source_uri.unwrap(), "/etc/hostname");
}

#[test]
fn remap_joins_with_exactly_one_slash() {
    let s = HostPathRemap::new("/host///".to_string());
    assert_eq!(s.remap("//a/b"), "/host/a/b");
    assert_eq!(s.remap("relative/x"), "/host/relative/x");
    assert_eq!(s.remap("file:///etc/x"), "file:///etc/x");
    assert_eq!(s.remap("http://h/p"), "http://h/p");
}

#[test]
fn remap_request_keeps_everything_else() {
    let s = HostPathRemap::new("/host".to_string());
    let mut r = request(SourceType::Pdf, "/a");
    r.content = Some("c".into());
    let out = s.remap_request(r);
    assert_eq!(out.source_type, SourceType::Pdf);
    assert_eq!(out.content, Some("c".to_string()));
    assert_eq!(out.scope.tenant_id.0, "t");
    let mut none = request(SourceType::Text, "/a");
    none.source_uri = None;
    assert_eq!(s.remap_request(none).source_uri, None);
}
