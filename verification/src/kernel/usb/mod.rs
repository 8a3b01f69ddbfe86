pub mod xhci;
