pub mod run_session;
