pub mod fontconv;
