use organization_invitation::urls::invitation_url;
use std::collections::BTreeMap;
use url::Url;
use uuid::Uuid;

const BASE: &str = "https://app.example.com/organization/invitations/accept";

#[test]
fn invitation_urls_encode_secret_query_material() {
    let id = Uuid::new_v4();
    let id_string = id.to_string();
    let url = invitation_url(BASE, id.as_u128(), "token with reserved?characters", 7).unwrap();
    let parsed = Url::parse(&url).unwrap();
    let pairs = parsed.query_pairs().collect::<BTreeMap<_, _>>();
    assert_eq!(
        pairs.get("invitation_id").map(std::convert::AsRef::as_ref),
        Some(id_string.as_str())
    );
    assert_eq!(
        pairs.get("token").map(std::convert::AsRef::as_ref),
        Some("token with reserved?characters")
    );
    assert_eq!(
        pairs.get("revision").map(std::convert::AsRef::as_ref),
        Some("7")
    );
}

#[test]
fn links_have_exactly_three_parameters() {
    let id: u128 = 0x6a43_eca2_af4b_4897_8514_c4bf_069a_de77;
    assert_eq!(
        invitation_url("https://app.example.com", id, "abc-DEF_123", 7).as_deref(),
        Some(
            "https://app.example.com/?invitation_id=6a43eca2-af4b-4897-8514-c4bf069ade77\
             &token=abc-DEF_123&revision=7"
        )
    );
    assert_eq!(
        invitation_url(BASE, id, "a b&c=ä*", 1).as_deref(),
        Some(
            "https://app.example.com/organization/invitations/accept\
             ?invitation_id=6a43eca2-af4b-4897-8514-c4bf069ade77\
             &token=a+b%26c%3D%C3%A4*&revision=1"
        )
    );
}

#[test]
fn bases_that_are_no_urls_have_no_links() {
    assert_eq!(invitation_url("not a url", 1, "token", 1), None);
}

#[test]
fn different_invitations_have_different_links() {
    let link = |id: u128, token: &str, revision: i64| {
        invitation_url(BASE, id, token, revision).unwrap()
    };
    assert_ne!(link(1, "a", 1), link(2, "a", 1));
    assert_ne!(link(1, "a", 1), link(1, "b", 1));
    assert_ne!(link(1, "a", 1), link(1, "a", 2));
    assert_ne!(link(1, "a&revision=2", 1), link(1, "a", 2));
}
