use pl3xus::names::request_type_path;
use pl3xus::names::response_type_name;
use pl3xus::names::schema_hash_of;
use pl3xus::names::short_name_of;
use pl3xus::names::short_type_name_of;
use pl3xus::names::PreviousMessage;
use pl3xus::names::TargetedMessage;

// Full type paths as the compiler writes them for types declared in tests.

#[test]
fn test_short_name() {
    let full = "names::test_short_name::MyMessage";
    let short = short_name_of(full);
    assert_eq!(short, "MyMessage");
    assert!(full.contains("MyMessage"));
    assert!(full.len() > short.len());
}

#[test]
fn test_schema_hash() {
    let hash_a1 = schema_hash_of("names::test_schema_hash::MessageA");
    let hash_a2 = schema_hash_of("names::test_schema_hash::MessageA");
    let hash_b = schema_hash_of("names::test_schema_hash::MessageB");
    assert_eq!(hash_a1, hash_a2);
    assert_ne!(hash_a1, hash_b);
}

#[test]
fn test_schema_hash_stability() {
    let name1 = "names::test_schema_hash_stability::module1::UserMessage";
    let name2 = "names::test_schema_hash_stability::module2::UserMessage";
    let hash1 = schema_hash_of(name1);
    let hash2 = schema_hash_of(name2);
    assert_eq!(hash1, hash2, "Types with same short name should have same schema hash");
    assert_ne!(name1, name2, "Types should have different full type names");
}

#[test]
fn test_request_message_auto_name() {
    let full = "names::test_request_message_auto_name::ListRobots";
    // A request is named by its short name.
    assert_eq!(short_name_of(full), "ListRobots");
    assert!(full.contains("ListRobots"));
}

#[test]
fn test_automatic_sync_component_impl() {
    assert_eq!(short_name_of("traits::tests::test_automatic_sync_component_impl::TestComponent"), "TestComponent");
}

#[test]
fn test_component_name_caching() {
    // Caching the leaked name per type is done around the library; what the
    // library fixes is that every call gives the same name for one path.
    let full: &'static str = "traits::tests::test_component_name_caching::CachedComponent";
    let name1 = short_name_of(full);
    let name2 = short_name_of(full);
    assert_eq!(name1, name2);
    assert_eq!(name1, "CachedComponent");
}

#[test]
fn traits_test_different_types_different_names() {
    let name_a = short_name_of("traits::tests::test_different_types_different_names::TypeA");
    let name_b = short_name_of("traits::tests::test_different_types_different_names::TypeB");
    assert_ne!(name_a, name_b);
    assert_eq!(name_a, "TypeA");
    assert_eq!(name_b, "TypeB");
}

#[test]
fn test_short_name_extraction() {
    assert_eq!(
        short_name_of("traits::tests::test_short_name_extraction::inner::NestedComponent"),
        "NestedComponent"
    );
}

#[test]
fn short_name_examples() {
    assert_eq!(short_name_of("my_crate::messages::PlayerPosition"), "PlayerPosition");
    assert_eq!(short_name_of("Plain"), "Plain");
    assert_eq!(short_name_of(""), "");
    assert_eq!(short_name_of("a::"), "");
    assert_eq!(short_name_of("a:::b"), "b");
    // Separators inside generic arguments do not count.
    assert_eq!(short_name_of("x::Generic<alloc::string::String>"), "Generic<alloc::string::String>");
    assert_eq!(short_name_of("a::b<c::d>::e"), "e");
}

#[test]
fn generic_messages_keep_their_own_names_and_hashes() {
    let a = "tests::GenericMessage<alloc::string::String>";
    let b = "tests::OtherMessage<alloc::string::String>";
    assert!(short_name_of(a).starts_with("GenericMessage"));
    assert_ne!(short_name_of(a), short_name_of(b));
    assert_ne!(schema_hash_of(a), schema_hash_of(b));
    // Moving the type to another module keeps its hash.
    assert_eq!(schema_hash_of(a), schema_hash_of("other::GenericMessage<alloc::string::String>"));
}

#[test]
fn short_type_name_ignores_generic_arguments() {
    assert_eq!(short_type_name_of("fanuc_replica_types::GetProgram"), "GetProgram");
    assert_eq!(short_type_name_of("alloc::vec::Vec<i32>"), "Vec<i32>");
    assert_eq!(
        short_type_name_of("alloc::vec::Vec<alloc::string::String>"),
        "Vec<alloc::string::String>"
    );
    assert_eq!(short_type_name_of("Plain"), "Plain");
    assert_eq!(short_type_name_of("a::b<c::d>::e"), "e");
}

#[test]
fn schema_hash_depends_on_short_name_only() {
    assert_eq!(schema_hash_of("a::b::Thing"), schema_hash_of("Thing"));
    assert_eq!(schema_hash_of("a::b::Thing"), schema_hash_of("c::Thing"));
    assert_ne!(schema_hash_of("a::Thing"), schema_hash_of("a::Other"));
}

#[test]
fn wrapper_names() {
    assert_eq!(TargetedMessage::<()>::name("app::Jog"), "Targeted(app::Jog)");
    assert_eq!(PreviousMessage::<()>::name("app::Jog"), "PreviousMessage(app::Jog)");
    assert!(!PreviousMessage::<()>::new().marker);
    assert_eq!(response_type_name("app::RobotList"), "ResponseInternal<app::RobotList>");
    assert_eq!(
        request_type_path("app::ListRobots"),
        "pl3xus::managers::network_request::RequestInternal<app::ListRobots>"
    );
}
