//! Control-plane and listener logic of the workspace serving mode of a load balancer.

pub mod active_health;
pub mod addr;
pub mod addr_parse;
pub mod address_laws;
pub mod admin_api;
pub mod admin_audit;
pub mod admin_auth;
pub mod admin_course;
pub mod admin_laws;
pub mod admin_policy;
pub mod admin_rate_limit;
pub mod admin_session;
pub mod apply_run;
pub mod backend_laws;
pub mod block_laws;
pub mod cidr;
pub mod clock;
pub mod compile_laws;
pub mod compile_policies;
pub mod compile_routes;
pub mod compile_runtime;
pub mod config;
pub mod config_preview;
pub mod connection_course;
pub mod connection_laws;
pub mod control_plane_journal;
pub mod course_laws;
pub mod destination_laws;
pub mod destination_policies;
pub mod digest;
pub mod effective_policies;
pub mod error;
pub mod failure_laws;
pub mod http3;
pub mod http_cache_scopes;
pub mod json;
pub mod json_laws;
pub mod layer_laws;
pub mod listener_lifecycle;
pub mod listener_runtime;
pub mod listener_status;
pub mod lookups;
pub mod named_map;
pub mod overload;
pub mod preface_laws;
pub mod proxy_protocol;
pub mod readiness;
pub mod recovery;
pub mod recovery_laws;
pub mod reference_laws;
pub mod reload_laws;
pub mod reload_plan;
pub mod report_laws;
pub mod secrets;
pub mod slot_laws;
pub mod state;
pub mod state_laws;
pub mod status_laws;
pub mod supervisor;
pub mod switch_over;
pub mod text;
pub mod text_laws;
pub mod traffic_laws;
pub mod wording_laws;
pub mod writing_laws;
