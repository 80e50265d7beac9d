pub mod admin;
pub mod admin_auth;
pub mod agent;
pub mod anyjwk;
pub mod assertion;
pub mod audit;
pub mod b64;
pub mod check;
pub mod cli;
pub mod client;
pub mod config;
pub mod crypto;
pub mod decimal;
pub mod enroll_flow;
pub mod enrollment;
pub mod event_flow;
pub mod events;
pub mod exchange;
pub mod flow;
pub mod httpc;
pub mod ident;
pub mod issue;
pub mod issuer_keys;
pub mod json;
pub mod jwk;
pub mod jwks_cache;
pub mod jwt;
pub mod keys;
pub mod pki;
pub mod problem;
pub mod random;
pub mod records;
pub mod reqctx;
pub mod resp;
pub mod revocation;
pub mod revoke_flow;
pub mod roundtrip;
pub mod router;
pub mod sfv;
pub mod sig;
pub mod sigkey;
pub mod storage;
pub mod table;
pub mod telemetry;
pub mod text;
pub mod token_flow;
pub mod tokens;
pub mod wellknown;
pub mod x509;
