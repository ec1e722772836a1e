pub mod binance;
