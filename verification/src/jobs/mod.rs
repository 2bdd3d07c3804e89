pub mod daily_active_accounts;
