pub mod analytics_dashboard;
