# printing_platform

A self-service printing platform for a lab's intranet: users log in, upload
documents, pick the pages to print and submit them to a queue that an
administrator oversees; a queue manager hands the tasks to the printer one at
a time and follows them until they leave the spooler.

- `src/` is the library, written in Verus: accounts and sessions, the
  configuration and its checks, page selections and their normal form,
  quotas, upload and submission rules, the queue's visibility rules, the
  printer's state and the queue manager's decisions, with their contracts and
  the laws that tie them together (for example, that a normalized page list
  names the pages that were typed, and that the pages charged against a quota
  are the pages a selection keeps while exactly the others are handed to
  `lopdf` for removal from the printed PDF).
- `app/` is the server around it: HTTP routes, the database, files, the
  printer and converter processes, and the WebSocket.
- `tests/` exercises the library.
