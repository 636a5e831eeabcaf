use gitcomet::message::Msg;
use gitcomet::model::{RepoExternalChange, RepoId};
use gitcomet::trace::{msg_external_change, msg_name, msg_repo_id};

#[test]
fn lifecycle_messages_are_named_and_carry_their_repository() {
    let r = RepoId(4);
    assert_eq!(msg_name(&Msg::ReloadRepo { repo_id: r }), "ReloadRepo");
    assert_eq!(msg_repo_id(&Msg::ReloadRepo { repo_id: r }), Some(r));
    assert_eq!(msg_name(&Msg::OpenRepo("/x".to_string())), "OpenRepo");
    assert_eq!(msg_repo_id(&Msg::OpenRepo("/x".to_string())), None);
    let reorder = Msg::ReorderRepoTabs { repo_id: r, insert_before: None };
    assert_eq!(msg_name(&reorder), "ReorderRepoTabs");
    assert_eq!(msg_repo_id(&reorder), Some(r));
    let changed = Msg::RepoExternallyChanged { repo_id: r, change: RepoExternalChange(7) };
    assert_eq!(msg_name(&changed), "RepoExternallyChanged");
    assert_eq!(msg_external_change(&changed), Some(RepoExternalChange(7)));
    assert_eq!(msg_name(&Msg::Push { repo_id: r }), "Msg");
    assert_eq!(msg_repo_id(&Msg::Push { repo_id: r }), None);
    assert_eq!(msg_external_change(&Msg::Push { repo_id: r }), None);
}
